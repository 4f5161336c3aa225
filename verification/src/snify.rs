use crate::annotations::{LineCol, TextRange};
use crate::lsp::{joined, name_text};
use crate::render::{decimal_text, i128_decimal, put};
use crate::uris::SymbolURI;
use vstd::string::*;
use vstd::prelude::*;

verus! {

/// The complaint about `n` arguments to `snify/annotate`, which takes four.
pub open spec fn arg_count_message(n: nat) -> Seq<char> {
    "invalid number of arguments for snify/annotate; expected: 4; got: "@ + decimal_text(n as int)
}

/// Checks the number of arguments given to `snify/annotate`: four are
/// accepted; any other number is refused with `arg_count_message`.
pub fn snify_arg_count(n: usize) -> (r: Result<(), String>)
    ensures
        n == 4 <==> r is Ok,
        r matches Err(m) ==> m@ == arg_count_message(n as nat),
{
    if n == 4 {
        return Ok(());
    }
    proof {
        reveal_strlit("invalid number of arguments for snify/annotate; expected: 4; got: ");
    }
    let mut m = String::new();
    put(&mut m, "invalid number of arguments for snify/annotate; expected: 4; got: ");
    let d = i128_decimal(n as i128);
    put(&mut m, d.as_str());
    Err(m)
}

/// An edit of a document: the text that replaces the range.
pub struct TextEdit {
    pub range: TextRange,
    pub new_text: String,
}

/// The empty range at `p`.
pub open spec fn point(p: LineCol) -> TextRange {
    TextRange { start: p, end: p }
}

/// How the module of the symbol `u` is imported: `\usemodule[ARCHIVE]{`,
/// the path and `?` where there is one, the module's name and `}`, on a
/// line of its own.
pub open spec fn usemodule_text(u: SymbolURI) -> Seq<char> {
    "\n  \\usemodule["@ + u.module.path.archive.archive.0@ + "]{"@ + match u.module.path.path {
        Some(p) => joined(p@) + "?"@,
        None => Seq::empty(),
    } + joined(u.module.name@) + "}"@
}

/// The edits that `snify/annotate` makes on a document, `r`.
///
/// With a symbol `u`, the text at `range` is wrapped as `\sr{NAME}{...}`,
/// after `\usemodule` of its module right after `\begin{document}` (at
/// `begin`) when `needs_usemodule`. Without one, the text at `range`
/// (`selected`) is put on the document's skip list: after the `% srskip `
/// at `skip` where the document has one (`has_skip`), else on a new
/// `% srskip` line at `skip`, the end of the document.
pub open spec fn snify_edits_are(
    r: Seq<TextEdit>,
    u: Option<SymbolURI>,
    needs_usemodule: bool,
    range: TextRange,
    begin: LineCol,
    selected: Seq<char>,
    skip: LineCol,
    has_skip: bool,
) -> bool {
    match u {
        None => {
            &&& r.len() == 1
            &&& r[0].range == point(skip)
            &&& r[0].new_text@ == if has_skip {
                "l:"@ + selected + ", "@
            } else {
                "\n% srskip l:"@ + selected
            }
        },
        Some(u) => {
            let k: int = if needs_usemodule {
                1
            } else {
                0
            };
            &&& r.len() == k + 2
            &&& needs_usemodule ==> r[0].range == point(begin) && r[0].new_text@ == usemodule_text(u)
            &&& r[k].range == point(range.start)
            &&& r[k].new_text@ == "\\sr{"@ + joined(u.name@) + "}{"@
            &&& r[k + 1].range == point(range.end)
            &&& r[k + 1].new_text@ == "}"@
        },
    }
}

fn edit_at(p: LineCol, new_text: String) -> (r: TextEdit)
    ensures
        r.range == point(p),
        r.new_text == new_text,
{
    TextEdit { range: TextRange { start: p, end: p }, new_text }
}

/// The edits of `snify/annotate` (see `snify_edits_are`).
pub fn snify_edits(
    u: &Option<SymbolURI>,
    needs_usemodule: bool,
    range: TextRange,
    begin: LineCol,
    selected: &str,
    skip: LineCol,
    has_skip: bool,
) -> (r: Vec<TextEdit>)
    ensures
        snify_edits_are(r@, *u, needs_usemodule, range, begin, selected@, skip, has_skip),
{
    proof {
        reveal_strlit("l:");
        reveal_strlit(", ");
        reveal_strlit("\n% srskip l:");
        reveal_strlit("\n  \\usemodule[");
        reveal_strlit("]{");
        reveal_strlit("?");
        reveal_strlit("}");
        reveal_strlit("\\sr{");
        reveal_strlit("}{");
    }
    let mut out: Vec<TextEdit> = Vec::new();
    match u {
        None => {
            let mut t = String::new();
            if has_skip {
                put(&mut t, "l:");
                put(&mut t, selected);
                put(&mut t, ", ");
            } else {
                put(&mut t, "\n% srskip l:");
                put(&mut t, selected);
            }
            out.push(edit_at(skip, t));
        },
        Some(u) => {
            if needs_usemodule {
                let mut t = String::new();
                put(&mut t, "\n  \\usemodule[");
                put(&mut t, u.module.path.archive.archive.0.as_str());
                put(&mut t, "]{");
                match &u.module.path.path {
                    Some(p) => {
                        let pt = name_text(p);
                        put(&mut t, pt.as_str());
                        put(&mut t, "?");
                    },
                    None => {},
                }
                let mt = name_text(&u.module.name);
                put(&mut t, mt.as_str());
                put(&mut t, "}");
                assert(t@ =~= usemodule_text(*u));
                out.push(edit_at(begin, t));
            }
            let mut open = String::new();
            put(&mut open, "\\sr{");
            let nt = name_text(&u.name);
            put(&mut open, nt.as_str());
            put(&mut open, "}{");
            out.push(edit_at(range.start, open));
            out.push(edit_at(range.end, "}".to_string()));
        },
    }
    out
}

} // verus!
