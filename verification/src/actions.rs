use crate::annotations::{Annot, KeyArg, LineCol, SymRef, TextRange};
use crate::hover::{find_fors, find_name, first_fors, holds, name_at, range_holds};
use crate::lsp::{disamb, disamb_candidates, first_unique, joined, name_text};
use crate::render::put;
use crate::text::{push_char, texts};
use crate::uris::SymbolURI;
use vstd::string::*;
use vstd::prelude::*;

verus! {

/// What a quick fix does.
pub enum ActionKind {
    /// Replace the text at `range` of the document at `url` by `new_text`.
    Replace { url: String, range: TextRange, new_text: String },
    /// Run the `snify/annotate` command with these arguments: the symbol to
    /// annotate (none to leave the place as it is), whether that needs a
    /// `\usemodule`, the document and the place in it.
    Annotate { symbol: String, needs_usemodule: bool, url: String, range: TextRange },
}

/// A quick fix that the editor offers, under its title.
pub struct CodeAction {
    pub title: String,
    pub kind: ActionKind,
}

/// The text by which `disamb` tells a symbol from the others: the archive,
/// then `/` and the path where there is one, then `?module?name`.
pub open spec fn sym_key(u: SymbolURI) -> Seq<char> {
    u.module.path.archive.archive.0@ + match u.module.path.path {
        Some(p) => seq!['/'] + joined(p@),
        None => Seq::empty(),
    } + seq!['?'] + joined(u.module.name@) + seq!['?'] + joined(u.name@)
}

/// The keys of the symbols, in order.
pub open spec fn sym_keys(syms: Seq<SymRef>) -> Seq<Seq<char>> {
    syms.map_values(|s: SymRef| sym_key(s.uri))
}

/// The shortest unambiguous way of naming the `i`-th of the symbols.
pub open spec fn disamb_text(syms: Seq<SymRef>, i: int) -> Seq<char> {
    first_unique(sym_keys(syms), disamb_candidates(syms[i].uri))
}

/// The action replaces the text at `range` of `url` by `text`, under the
/// title `text`.
pub open spec fn replaces(a: CodeAction, url: Seq<char>, range: TextRange, text: Seq<char>) -> bool {
    &&& a.title@ == text
    &&& a.kind matches ActionKind::Replace { url: u, range: r, new_text: t }
    &&& u@ == url
    &&& r == range
    &&& t@ == text
}

/// The action runs `snify/annotate` on `symbol` at `range` of `url`.
pub open spec fn annotates(
    a: CodeAction,
    title: Seq<char>,
    symbol: Seq<char>,
    needs_usemodule: bool,
    url: Seq<char>,
    range: TextRange,
) -> bool {
    &&& a.title@ == title
    &&& a.kind matches ActionKind::Annotate { symbol: s, needs_usemodule: n, url: u, range: r }
    &&& s@ == symbol
    &&& n == needs_usemodule
    &&& u@ == url
    &&& r == range
}

/// An ambiguous name at `range` that `pos` is in: the symbols it may refer
/// to, when there are several.
pub open spec fn ambiguous_at(syms: Seq<SymRef>, range: TextRange, pos: LineCol) -> Option<
    (Seq<SymRef>, TextRange),
> {
    if holds(range, pos) && syms.len() > 1 {
        Some((syms, range))
    } else {
        None
    }
}

/// The ambiguous name of the annotation `a` that `pos` is in, if any: the
/// symbols it may refer to and its range.
pub open spec fn disamb_target(a: Annot, pos: LineCol) -> Option<(Seq<SymRef>, TextRange)> {
    match a {
        Annot::SymName { syms, name_range, .. } => ambiguous_at(syms@, name_range, pos),
        Annot::Symref { syms, name_range, .. } => ambiguous_at(syms@, name_range, pos),
        Annot::Symuse { syms, name_range, .. } => ambiguous_at(syms@, name_range, pos),
        Annot::Notation { syms, name_range, .. } => ambiguous_at(syms@, name_range, pos),
        Annot::Precondition { syms, symbol_range, .. } => ambiguous_at(syms@, symbol_range, pos),
        Annot::Objective { syms, symbol_range, .. } => ambiguous_at(syms@, symbol_range, pos),
        Annot::Definiens { syms, name_range, .. } => match name_range {
            Some(r) => ambiguous_at(syms@, r, pos),
            None => None,
        },
        Annot::Paragraph { parsed_args, .. } => fors_target(parsed_args@, pos),
        Annot::InlineParagraph { parsed_args, .. } => fors_target(parsed_args@, pos),
        _ => None,
    }
}

/// The first name of the first `for=` argument that `pos` is in, when it
/// is ambiguous.
pub open spec fn fors_target(args: Seq<KeyArg>, pos: LineCol) -> Option<(Seq<SymRef>, TextRange)> {
    match first_fors(args) {
        Some((_, names)) => match name_at(names, pos) {
            Some(n) => ambiguous_at(n.syms@, n.range, pos),
            None => None,
        },
        None => None,
    }
}

/// The suggestions to annotate a symbol, when `pos` is in their place.
pub open spec fn snify_target(a: Annot, pos: LineCol) -> Option<(TextRange, Seq<(SymRef, bool)>)> {
    match a {
        Annot::SnifySuggestion { range, symbols } => if holds(range, pos) {
            Some((range, symbols@))
        } else {
            None
        },
        _ => None,
    }
}

/// The quick fixes `r` that the editor offers at `pos` of the document at
/// `url` for the annotation `a`: for an ambiguous name, one per symbol it
/// may refer to, replacing the name by its shortest unambiguous form; for
/// suggested annotations, one per candidate and a last one that leaves
/// the place as it is; else none.
pub open spec fn actions_are(r: Seq<CodeAction>, a: Annot, pos: LineCol, url: Seq<char>) -> bool {
    match disamb_target(a, pos) {
        Some((syms, range)) => {
            &&& r.len() == syms.len()
            &&& forall|i: int| 0 <= i < r.len() ==> replaces(#[trigger] r[i], url, range, disamb_text(syms, i))
        },
        None => match snify_target(a, pos) {
            Some((range, cands)) => {
                &&& r.len() == cands.len() + 1
                &&& forall|i: int|
                    0 <= i < cands.len() ==> annotates(
                        #[trigger] r[i],
                        cands[i].0.text@,
                        cands[i].0.text@,
                        cands[i].1,
                        url,
                        range,
                    )
                &&& annotates(r[cands.len() as int], "(ignore)"@, Seq::empty(), false, url, range)
            },
            None => r.len() == 0,
        },
    }
}

/// `sym_key`, computed.
fn sym_key_text(u: &SymbolURI) -> (r: String)
    ensures
        r@ == sym_key(*u),
{
    let mut out = String::new();
    put(&mut out, u.module.path.archive.archive.0.as_str());
    match &u.module.path.path {
        Some(p) => {
            push_char(&mut out, '/');
            let t = name_text(p);
            put(&mut out, t.as_str());
        },
        None => {},
    }
    push_char(&mut out, '?');
    let m = name_text(&u.module.name);
    put(&mut out, m.as_str());
    push_char(&mut out, '?');
    let n = name_text(&u.name);
    put(&mut out, n.as_str());
    assert(out@ =~= sym_key(*u));
    out
}

/// One action per symbol, replacing the name at `range` by the symbol's
/// shortest unambiguous form.
fn disamb_actions(url: &str, syms: &Vec<SymRef>, range: TextRange) -> (r: Vec<CodeAction>)
    ensures
        r@.len() == syms@.len(),
        forall|i: int| 0 <= i < r@.len() ==> replaces(#[trigger] r@[i], url@, range, disamb_text(syms@, i)),
{
    let mut all: Vec<String> = Vec::new();
    let mut i: usize = 0;
    while i < syms.len()
        invariant
            i <= syms@.len(),
            texts(all@) == sym_keys(syms@.take(i as int)),
        decreases syms@.len() - i,
    {
        let k = sym_key_text(&syms[i].uri);
        let ghost before = all@;
        let ghost kv = k@;
        assert(kv == sym_key(syms@[i as int].uri));
        all.push(k);
        proof {
            assert(syms@.take(i + 1) =~= syms@.take(i as int).push(syms@[i as int]));
            assert(all@ =~= before.push(k));
            assert(texts(before).len() == before.len());
            assert(sym_keys(syms@.take(i as int)).len() == i);
            assert(all@.len() == i + 1);
            assert forall|t: int| 0 <= t < all@.len() implies texts(all@)[t] == sym_keys(
                syms@.take(i + 1),
            )[t] by {
                assert(syms@.take(i + 1)[t] == syms@[t]);
                if t < i {
                    assert(texts(before)[t] == sym_keys(syms@.take(i as int))[t]);
                    assert(syms@.take(i as int)[t] == syms@[t]);
                    assert(texts(all@)[t] == all@[t]@);
                    assert(all@[t] == before[t]);
                } else {
                    assert(all@[t]@ == kv);
                }
            }
        }
        assert(texts(all@) =~= sym_keys(syms@.take(i + 1)));
        i = i + 1;
    }
    assert(syms@.take(syms@.len() as int) =~= syms@);
    let mut out: Vec<CodeAction> = Vec::new();
    let mut j: usize = 0;
    while j < syms.len()
        invariant
            j <= syms@.len(),
            texts(all@) == sym_keys(syms@),
            out@.len() == j,
            forall|i: int| 0 <= i < j ==> replaces(#[trigger] out@[i], url@, range, disamb_text(syms@, i)),
        decreases syms@.len() - j,
    {
        let d = disamb(&syms[j].uri, all.as_slice());
        let title = d.clone();
        out.push(
            CodeAction {
                title,
                kind: ActionKind::Replace { url: url.to_string(), range, new_text: d },
            },
        );
        j = j + 1;
    }
    out
}

/// The actions for suggested annotations at `range`: one per candidate,
/// then one that leaves the place as it is.
fn snify_actions(url: &str, cands: &Vec<(SymRef, bool)>, range: TextRange) -> (r: Vec<CodeAction>)
    ensures
        r@.len() == cands@.len() + 1,
        forall|i: int|
            0 <= i < cands@.len() ==> annotates(
                #[trigger] r@[i],
                cands@[i].0.text@,
                cands@[i].0.text@,
                cands@[i].1,
                url@,
                range,
            ),
        annotates(r@[cands@.len() as int], "(ignore)"@, Seq::empty(), false, url@, range),
{
    let mut out: Vec<CodeAction> = Vec::new();
    let mut j: usize = 0;
    while j < cands.len()
        invariant
            j <= cands@.len(),
            out@.len() == j,
            forall|i: int|
                0 <= i < j ==> annotates(
                    #[trigger] out@[i],
                    cands@[i].0.text@,
                    cands@[i].0.text@,
                    cands@[i].1,
                    url@,
                    range,
                ),
        decreases cands@.len() - j,
    {
        let (s, needs) = &cands[j];
        out.push(
            CodeAction {
                title: s.text.clone(),
                kind: ActionKind::Annotate {
                    symbol: s.text.clone(),
                    needs_usemodule: *needs,
                    url: url.to_string(),
                    range,
                },
            },
        );
        j = j + 1;
    }
    proof {
        reveal_strlit("(ignore)");
    }
    out.push(
        CodeAction {
            title: "(ignore)".to_string(),
            kind: ActionKind::Annotate {
                symbol: String::new(),
                needs_usemodule: false,
                url: url.to_string(),
                range,
            },
        },
    );
    out
}

fn name_actions(url: &str, syms: &Vec<SymRef>, range: TextRange, pos: LineCol) -> (r: Vec<CodeAction>)
    ensures
        match ambiguous_at(syms@, range, pos) {
            Some((s, rg)) => r@.len() == s.len() && forall|i: int|
                0 <= i < r@.len() ==> replaces(#[trigger] r@[i], url@, rg, disamb_text(s, i)),
            None => r@.len() == 0,
        },
{
    if range_holds(&range, pos) && syms.len() > 1 {
        disamb_actions(url, syms, range)
    } else {
        Vec::new()
    }
}

fn fors_actions(url: &str, args: &Vec<KeyArg>, pos: LineCol) -> (r: Vec<CodeAction>)
    ensures
        match fors_target(args@, pos) {
            Some((s, rg)) => r@.len() == s.len() && forall|i: int|
                0 <= i < r@.len() ==> replaces(#[trigger] r@[i], url@, rg, disamb_text(s, i)),
            None => r@.len() == 0,
        },
{
    match find_fors(args) {
        None => Vec::new(),
        Some(k) => match &args[k] {
            KeyArg::Fors { symbols, .. } => match find_name(symbols, pos) {
                None => Vec::new(),
                Some(j) => name_actions(url, &symbols[j].syms, symbols[j].range, pos),
            },
            _ => Vec::new(),
        },
    }
}

/// The quick fixes the editor offers at `pos` of the document at `url` for
/// the annotation `a` (see `actions_are`).
pub fn code_action(a: &Annot, pos: LineCol, url: &str) -> (r: Vec<CodeAction>)
    ensures
        actions_are(r@, *a, pos, url@),
{
    match a {
        Annot::SymName { syms, name_range, .. } | Annot::Symref { syms, name_range, .. }
        | Annot::Symuse { syms, name_range, .. } | Annot::Notation { syms, name_range, .. } => {
            name_actions(url, syms, *name_range, pos)
        },
        Annot::Precondition { syms, symbol_range, .. } | Annot::Objective {
            syms,
            symbol_range,
            ..
        } => name_actions(url, syms, *symbol_range, pos),
        Annot::Definiens { syms, name_range, .. } => match name_range {
            Some(r) => name_actions(url, syms, *r, pos),
            None => Vec::new(),
        },
        Annot::Paragraph { parsed_args, .. } | Annot::InlineParagraph { parsed_args, .. } => {
            fors_actions(url, parsed_args, pos)
        },
        Annot::SnifySuggestion { range, symbols } => {
            if range_holds(range, pos) {
                snify_actions(url, symbols, *range)
            } else {
                Vec::new()
            }
        },
        _ => Vec::new(),
    }
}

/// The symbols that the annotation names, and the range of the name, for
/// the annotations that refer to symbols by a name.
pub open spec fn named_symbols(a: Annot) -> Option<(Seq<SymRef>, TextRange)> {
    match a {
        Annot::SymName { syms, name_range, .. } => Some((syms@, name_range)),
        Annot::Symref { syms, name_range, .. } => Some((syms@, name_range)),
        Annot::Symuse { syms, name_range, .. } => Some((syms@, name_range)),
        Annot::Notation { syms, name_range, .. } => Some((syms@, name_range)),
        Annot::Precondition { syms, symbol_range, .. } => Some((syms@, symbol_range)),
        Annot::Objective { syms, symbol_range, .. } => Some((syms@, symbol_range)),
        Annot::Definiens { syms, name_range: Some(r), .. } => Some((syms@, r)),
        _ => None,
    }
}

/// The quick fixes on a name that refers to symbols: where the name holds
/// the cursor and refers to `k > 1` symbols, there are `k` of them, the
/// `i`-th replacing the name by the shortest form that tells the `i`-th
/// symbol from the others; otherwise there are none. On suggested
/// annotations that hold the cursor, there is one per candidate, annotating
/// it, and a last one that annotates nothing; away from them, none.
pub proof fn lemma_quick_fixes(r: Seq<CodeAction>, a: Annot, pos: LineCol, url: Seq<char>)
    requires
        actions_are(r, a, pos, url),
    ensures
        named_symbols(a) matches Some((syms, range)) ==> if holds(range, pos) && syms.len() > 1 {
            &&& r.len() == syms.len()
            &&& forall|i: int|
                0 <= i < r.len() ==> ((#[trigger] r[i]).title@ == first_unique(
                    syms.map_values(|s: SymRef| sym_key(s.uri)),
                    disamb_candidates(syms[i].uri),
                ) && (r[i].kind matches ActionKind::Replace { url: u, range: rg, new_text: t } && u@ == url
                    && rg == range && t@ == r[i].title@))
        } else {
            r.len() == 0
        },
        a matches Annot::SnifySuggestion { range, symbols } ==> if holds(range, pos) {
            &&& r.len() == symbols@.len() + 1
            &&& forall|i: int|
                0 <= i < symbols@.len() ==> ((#[trigger] r[i]).title@ == symbols@[i].0.text@
                    && (r[i].kind matches ActionKind::Annotate { symbol: s, needs_usemodule: n, url: u, range: rg }
                    && s@ == symbols@[i].0.text@ && n == symbols@[i].1 && u@ == url && rg == range))
            &&& (r[symbols@.len() as int].kind matches ActionKind::Annotate { symbol: s, needs_usemodule: n, .. }
                && s@.len() == 0 && !n)
            &&& r[symbols@.len() as int].title@ == "(ignore)"@
        } else {
            r.len() == 0
        },
{
}

} // verus!
