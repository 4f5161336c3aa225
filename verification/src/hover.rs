use crate::annotations::{Annot, InlineMorphAssign, KeyArg, LineCol, NameAt, RefAt, SymRef, TextRange};
use crate::render::put;
use vstd::string::*;
use vstd::prelude::*;

verus! {

/// `a` comes at or before `b`: on an earlier line, or on the same line at
/// or before its column.
pub open spec fn at_or_before(a: LineCol, b: LineCol) -> bool {
    a.line < b.line || (a.line == b.line && a.col <= b.col)
}

/// The range holds the position; both of its ends count as inside.
pub open spec fn holds(r: TextRange, p: LineCol) -> bool {
    at_or_before(r.start, p) && at_or_before(p, r.end)
}

/// Whether the range `r` holds the position `p` (see `holds`).
pub fn range_holds(r: &TextRange, p: LineCol) -> (b: bool)
    ensures
        b == holds(*r, p),
{
    (r.start.line < p.line || (r.start.line == p.line && r.start.col <= p.col)) && (p.line
        < r.end.line || (p.line == r.end.line && p.col <= r.end.col))
}

/// The first reference whose range holds `pos`.
pub open spec fn ref_at(s: Seq<RefAt>, pos: LineCol) -> Option<RefAt>
    decreases s.len(),
{
    if s.len() == 0 {
        None
    } else if holds(s[0].range, pos) {
        Some(s[0])
    } else {
        ref_at(s.drop_first(), pos)
    }
}

/// The first name whose range holds `pos`.
pub open spec fn name_at(s: Seq<NameAt>, pos: LineCol) -> Option<NameAt>
    decreases s.len(),
{
    if s.len() == 0 {
        None
    } else if holds(s[0].range, pos) {
        Some(s[0])
    } else {
        name_at(s.drop_first(), pos)
    }
}

/// The first assignment whose symbol's range holds `pos`.
pub open spec fn assign_at(s: Seq<InlineMorphAssign>, pos: LineCol) -> Option<InlineMorphAssign>
    decreases s.len(),
{
    if s.len() == 0 {
        None
    } else if holds(s[0].symbol_range, pos) {
        Some(s[0])
    } else {
        assign_at(s.drop_first(), pos)
    }
}

/// The first `for=` argument among `s`, if any: the range of its value and
/// the names it lists.
pub open spec fn first_fors(s: Seq<KeyArg>) -> Option<(TextRange, Seq<NameAt>)>
    decreases s.len(),
{
    if s.len() == 0 {
        None
    } else {
        match s[0] {
            KeyArg::Fors { val_range, symbols, .. } => Some((val_range, symbols@)),
            _ => first_fors(s.drop_first()),
        }
    }
}

/// Every name lists at least one symbol.
pub open spec fn names_resolved(s: Seq<NameAt>) -> bool {
    forall|i: int| 0 <= i < s.len() ==> (#[trigger] s[i]).syms@.len() > 0
}

/// `PRE<sup>`URI`</sup>`, in Markdown.
pub open spec fn uri_note(pre: Seq<char>, uri: Seq<char>) -> Seq<char> {
    pre + "<sup>`"@ + uri + "`</sup>"@
}

/// The note on the first of the symbols a name refers to.
pub open spec fn first_note(syms: Seq<SymRef>) -> Seq<char> {
    uri_note(Seq::empty(), syms[0].text@)
}

/// The Markdown that shows an image at the URL `url`.
pub open spec fn image_markdown(url: Seq<char>) -> Seq<char> {
    "![img]("@ + url + ")"@
}

/// Each name of the annotation that a hover or a search for a definition
/// reads refers to at least one symbol, as the parser gives it.
pub open spec fn refs_resolved(a: Annot) -> bool {
    match a {
        Annot::SymName { syms, .. } => syms@.len() > 0,
        Annot::Symref { syms, .. } => syms@.len() > 0,
        Annot::Notation { syms, .. } => syms@.len() > 0,
        Annot::Symuse { syms, .. } => syms@.len() > 0,
        Annot::Precondition { syms, .. } => syms@.len() > 0,
        Annot::Objective { syms, .. } => syms@.len() > 0,
        Annot::Definiens { syms, name_range, .. } => name_range is Some ==> syms@.len() > 0,
        Annot::Paragraph { parsed_args, .. } => match first_fors(parsed_args@) {
            Some((_, names)) => names_resolved(names),
            None => true,
        },
        Annot::InlineParagraph { parsed_args, .. } => match first_fors(parsed_args@) {
            Some((_, names)) => names_resolved(names),
            None => true,
        },
        _ => true,
    }
}

/// The hover of a `for=` argument: on the first listed name that holds
/// `pos`, when the argument's value holds it.
pub open spec fn fors_hover(args: Seq<KeyArg>, pos: LineCol) -> Option<(TextRange, Seq<char>)> {
    match first_fors(args) {
        Some((val_range, names)) => if holds(val_range, pos) {
            match name_at(names, pos) {
                Some(n) => Some((n.range, first_note(n.syms@))),
                None => None,
            }
        } else {
            None
        },
        None => None,
    }
}

/// What hovering at `pos` over the annotation `a` shows, if anything: the
/// range and the Markdown text. `graphics` is the URL of the image of an
/// `\mhgraphics`, where one was found.
pub open spec fn hover_of(a: Annot, graphics: Option<Seq<char>>, pos: LineCol) -> Option<
    (TextRange, Seq<char>),
> {
    match a {
        Annot::SymName { syms, name_range, .. } => Some((name_range, first_note(syms@))),
        Annot::Symref { syms, name_range, .. } => Some((name_range, first_note(syms@))),
        Annot::Notation { syms, name_range, .. } => Some((name_range, first_note(syms@))),
        Annot::Symuse { syms, name_range, .. } => Some((name_range, first_note(syms@))),
        Annot::Precondition { syms, symbol_range, .. } => Some((symbol_range, first_note(syms@))),
        Annot::Objective { syms, symbol_range, .. } => Some((symbol_range, first_note(syms@))),
        Annot::Definiens { syms, name_range, .. } => match name_range {
            Some(r) => Some((r, first_note(syms@))),
            None => None,
        },
        Annot::SemanticMacro { uri, full_range, .. } => Some(
            (full_range, uri_note(Seq::empty(), uri@)),
        ),
        Annot::ConservativeExt { uri, ext_range, .. } => Some(
            (ext_range, uri_note(Seq::empty(), uri@)),
        ),
        Annot::UseStructure { structure, structure_range, .. } => Some(
            (structure_range, uri_note(Seq::empty(), structure@)),
        ),
        Annot::MorphismEnv { domain_is_struct, domain, domain_range, .. } => if domain_is_struct {
            Some((domain_range, uri_note(Seq::empty(), domain@)))
        } else {
            None
        },
        Annot::RenameDecl { uri, orig_range, .. } => Some((orig_range, uri_note(Seq::empty(), uri@))),
        Annot::Assign { uri, orig_range, .. } => Some((orig_range, uri_note(Seq::empty(), uri@))),
        Annot::InlineMorphism { domain_is_struct, domain, domain_range, assignments, .. } => if holds(
            domain_range,
            pos,
        ) {
            if domain_is_struct {
                Some((domain_range, uri_note(Seq::empty(), domain@)))
            } else {
                None
            }
        } else {
            match assign_at(assignments@, pos) {
                Some(x) => Some((x.symbol_range, uri_note(Seq::empty(), x.symbol@))),
                None => None,
            }
        },
        Annot::Svar { name, full_range } => Some((full_range, uri_note("Variable "@, name@))),
        Annot::VariableMacro { name, full_range, .. } => Some(
            (full_range, uri_note("Variable "@, name@)),
        ),
        Annot::MathStructure { extends, .. } => match ref_at(extends@, pos) {
            Some(x) => Some((x.range, uri_note(Seq::empty(), x.sym.text@))),
            None => None,
        },
        Annot::Paragraph { parsed_args, .. } => fors_hover(parsed_args@, pos),
        Annot::InlineParagraph { parsed_args, .. } => fors_hover(parsed_args@, pos),
        Annot::MHGraphics { full_range, .. } => match graphics {
            Some(url) => Some((full_range, image_markdown(url))),
            None => None,
        },
        Annot::Module { uri, name_range, full_range, .. } => Some(
            (TextRange { start: full_range.start, end: name_range.end }, uri@),
        ),
        _ => None,
    }
}

/// What a hover shows: the range it is about and a Markdown text.
pub struct HoverInfo {
    pub range: TextRange,
    pub markdown: String,
}

/// The archive and the file in it whose URL an `\mhgraphics` annotation
/// shows: its own archive, or else the archive of the document it is in.
pub open spec fn graphics_source_of(a: Annot, top_archive: Option<Seq<char>>) -> Option<
    (Seq<char>, Seq<char>),
> {
    match a {
        Annot::MHGraphics { archive, filepath, .. } => match archive {
            Some(x) => Some((x@, filepath@)),
            None => match top_archive {
                Some(t) => Some((t, filepath@)),
                None => None,
            },
        },
        _ => None,
    }
}

/// The archive and file whose URL a hover over the annotation `a` shows,
/// if it shows one (see `graphics_source_of`); `top_archive` is the archive
/// of the document.
pub fn graphics_source(a: &Annot, top_archive: Option<&str>) -> (r: Option<(String, String)>)
    ensures
        match (r, graphics_source_of(*a, match top_archive {
            Some(t) => Some(t@),
            None => None,
        })) {
            (None, None) => true,
            (Some((x, f)), Some((sx, sf))) => x@ == sx && f@ == sf,
            _ => false,
        },
{
    match a {
        Annot::MHGraphics { archive, filepath, .. } => match archive {
            Some(x) => Some((x.clone(), filepath.clone())),
            None => match top_archive {
                Some(t) => Some((t.to_string(), filepath.clone())),
                None => None,
            },
        },
        _ => None,
    }
}

fn find_ref(v: &Vec<RefAt>, pos: LineCol) -> (r: Option<usize>)
    ensures
        match ref_at(v@, pos) {
            None => r is None,
            Some(x) => r matches Some(k) && k < v@.len() && v@[k as int] == x,
        },
{
    let mut i: usize = 0;
    assert(v@.skip(0) =~= v@);
    while i < v.len()
        invariant
            i <= v@.len(),
            ref_at(v@, pos) == ref_at(v@.skip(i as int), pos),
        decreases v@.len() - i,
    {
        assert(v@.skip(i as int)[0] == v@[i as int]);
        if range_holds(&v[i].range, pos) {
            return Some(i);
        }
        assert(v@.skip(i as int).drop_first() =~= v@.skip(i + 1));
        i = i + 1;
    }
    assert(v@.skip(i as int).len() == 0);
    None
}

pub(crate) fn find_name(v: &Vec<NameAt>, pos: LineCol) -> (r: Option<usize>)
    ensures
        match name_at(v@, pos) {
            None => r is None,
            Some(x) => r matches Some(k) && k < v@.len() && v@[k as int] == x,
        },
{
    let mut i: usize = 0;
    assert(v@.skip(0) =~= v@);
    while i < v.len()
        invariant
            i <= v@.len(),
            name_at(v@, pos) == name_at(v@.skip(i as int), pos),
        decreases v@.len() - i,
    {
        assert(v@.skip(i as int)[0] == v@[i as int]);
        if range_holds(&v[i].range, pos) {
            return Some(i);
        }
        assert(v@.skip(i as int).drop_first() =~= v@.skip(i + 1));
        i = i + 1;
    }
    assert(v@.skip(i as int).len() == 0);
    None
}

fn find_assign(v: &Vec<InlineMorphAssign>, pos: LineCol) -> (r: Option<usize>)
    ensures
        match assign_at(v@, pos) {
            None => r is None,
            Some(x) => r matches Some(k) && k < v@.len() && v@[k as int] == x,
        },
{
    let mut i: usize = 0;
    assert(v@.skip(0) =~= v@);
    while i < v.len()
        invariant
            i <= v@.len(),
            assign_at(v@, pos) == assign_at(v@.skip(i as int), pos),
        decreases v@.len() - i,
    {
        assert(v@.skip(i as int)[0] == v@[i as int]);
        if range_holds(&v[i].symbol_range, pos) {
            return Some(i);
        }
        assert(v@.skip(i as int).drop_first() =~= v@.skip(i + 1));
        i = i + 1;
    }
    assert(v@.skip(i as int).len() == 0);
    None
}

/// The index of the first `for=` argument among `v`, if any.
pub(crate) fn find_fors(v: &Vec<KeyArg>) -> (r: Option<usize>)
    ensures
        match first_fors(v@) {
            None => r is None,
            Some((vr, names)) => r matches Some(k) && k < v@.len() && (v@[k as int] matches KeyArg::Fors { val_range, symbols, .. } && val_range == vr && symbols@ == names),
        },
{
    let mut i: usize = 0;
    assert(v@.skip(0) =~= v@);
    while i < v.len()
        invariant
            i <= v@.len(),
            first_fors(v@) == first_fors(v@.skip(i as int)),
        decreases v@.len() - i,
    {
        assert(v@.skip(i as int)[0] == v@[i as int]);
        if let KeyArg::Fors { .. } = &v[i] {
            return Some(i);
        }
        assert(v@.skip(i as int).drop_first() =~= v@.skip(i + 1));
        i = i + 1;
    }
    assert(v@.skip(i as int).len() == 0);
    None
}

/// `uri_note`, computed.
fn note(pre: &str, uri: &str) -> (r: String)
    ensures
        r@ == uri_note(pre@, uri@),
{
    proof {
        reveal_strlit("<sup>`");
        reveal_strlit("`</sup>");
    }
    let mut out = String::new();
    put(&mut out, pre);
    put(&mut out, "<sup>`");
    put(&mut out, uri);
    put(&mut out, "`</sup>");
    out
}

/// The note on the first of the symbols `syms`.
fn first_sym_note(syms: &Vec<SymRef>) -> (r: String)
    requires
        syms@.len() > 0,
    ensures
        r@ == first_note(syms@),
{
    proof {
        reveal_strlit("");
    }
    note("", syms[0].text.as_str())
}

fn fors_hover_info(args: &Vec<KeyArg>, pos: LineCol) -> (r: Option<HoverInfo>)
    requires
        match first_fors(args@) {
            Some((_, names)) => names_resolved(names),
            None => true,
        },
    ensures
        match (r, fors_hover(args@, pos)) {
            (None, None) => true,
            (Some(h), Some((range, md))) => h.range == range && h.markdown@ == md,
            _ => false,
        },
{
    match find_fors(args) {
        None => None,
        Some(k) => match &args[k] {
            KeyArg::Fors { val_range, symbols, .. } => {
                if !range_holds(val_range, pos) {
                    return None;
                }
                match find_name(symbols, pos) {
                    None => None,
                    Some(j) => {
                        assert(symbols@[j as int].syms@.len() > 0);
                        Some(
                            HoverInfo {
                                range: symbols[j].range,
                                markdown: first_sym_note(&symbols[j].syms),
                            },
                        )
                    },
                }
            },
            _ => None,
        },
    }
}

/// What hovering at `pos` over the annotation `a` shows, if anything (see
/// `hover_of`). `graphics` is the URL that the image of an `\mhgraphics`
/// was found at, for the archive and file that `graphics_source` names.
pub fn hover(a: &Annot, graphics: &Option<String>, pos: LineCol) -> (r: Option<HoverInfo>)
    requires
        refs_resolved(*a),
    ensures
        match (r, hover_of(*a, match *graphics {
            Some(g) => Some(g@),
            None => None,
        }, pos)) {
            (None, None) => true,
            (Some(h), Some((range, md))) => h.range == range && h.markdown@ == md,
            _ => false,
        },
{
    proof {
        reveal_strlit("");
        reveal_strlit("Variable ");
        reveal_strlit("![img](");
        reveal_strlit(")");
    }
    match a {
        Annot::SymName { syms, name_range, .. } | Annot::Symref { syms, name_range, .. }
        | Annot::Notation { syms, name_range, .. } | Annot::Symuse { syms, name_range, .. } => Some(
            HoverInfo { range: *name_range, markdown: first_sym_note(syms) },
        ),
        Annot::Precondition { syms, symbol_range, .. } | Annot::Objective {
            syms,
            symbol_range,
            ..
        } => Some(HoverInfo { range: *symbol_range, markdown: first_sym_note(syms) }),
        Annot::Definiens { syms, name_range, .. } => match name_range {
            Some(r) => Some(HoverInfo { range: *r, markdown: first_sym_note(syms) }),
            None => None,
        },
        Annot::SemanticMacro { uri, full_range, .. } => Some(
            HoverInfo { range: *full_range, markdown: note("", uri.as_str()) },
        ),
        Annot::ConservativeExt { uri, ext_range, .. } => Some(
            HoverInfo { range: *ext_range, markdown: note("", uri.as_str()) },
        ),
        Annot::UseStructure { structure, structure_range, .. } => Some(
            HoverInfo { range: *structure_range, markdown: note("", structure.as_str()) },
        ),
        Annot::MorphismEnv { domain_is_struct, domain, domain_range, .. } => {
            if *domain_is_struct {
                Some(HoverInfo { range: *domain_range, markdown: note("", domain.as_str()) })
            } else {
                None
            }
        },
        Annot::RenameDecl { uri, orig_range, .. } | Annot::Assign { uri, orig_range, .. } => Some(
            HoverInfo { range: *orig_range, markdown: note("", uri.as_str()) },
        ),
        Annot::InlineMorphism { domain_is_struct, domain, domain_range, assignments, .. } => {
            if range_holds(domain_range, pos) {
                if *domain_is_struct {
                    Some(HoverInfo { range: *domain_range, markdown: note("", domain.as_str()) })
                } else {
                    None
                }
            } else {
                match find_assign(assignments, pos) {
                    Some(k) => Some(
                        HoverInfo {
                            range: assignments[k].symbol_range,
                            markdown: note("", assignments[k].symbol.as_str()),
                        },
                    ),
                    None => None,
                }
            }
        },
        Annot::Svar { name, full_range } | Annot::VariableMacro { name, full_range, .. } => Some(
            HoverInfo { range: *full_range, markdown: note("Variable ", name.as_str()) },
        ),
        Annot::MathStructure { extends, .. } => match find_ref(extends, pos) {
            Some(k) => Some(
                HoverInfo { range: extends[k].range, markdown: note("", extends[k].sym.text.as_str()) },
            ),
            None => None,
        },
        Annot::Paragraph { parsed_args, .. } | Annot::InlineParagraph { parsed_args, .. } => {
            fors_hover_info(parsed_args, pos)
        },
        Annot::MHGraphics { full_range, .. } => match graphics {
            Some(url) => {
                let mut md = String::new();
                put(&mut md, "![img](");
                put(&mut md, url.as_str());
                put(&mut md, ")");
                Some(HoverInfo { range: *full_range, markdown: md })
            },
            None => None,
        },
        Annot::Module { uri, name_range, full_range, .. } => Some(
            HoverInfo {
                range: TextRange { start: full_range.start, end: name_range.end },
                markdown: uri.clone(),
            },
        ),
        _ => None,
    }
}

/// `uri_note` with no prefix is the URI in a superscript code span.
proof fn lemma_plain_note(u: Seq<char>)
    ensures
        uri_note(Seq::empty(), u) == "<sup>`"@ + u + "`</sup>"@,
{
    assert(Seq::<char>::empty() + "<sup>`"@ =~= "<sup>`"@);
}

/// The first of the references that holds `pos` is the one at `i` when the
/// one at `i` holds it and none before does.
proof fn lemma_ref_at_first(s: Seq<RefAt>, pos: LineCol, i: int)
    requires
        0 <= i < s.len(),
        holds(s[i].range, pos),
        forall|j: int| 0 <= j < i ==> !holds(#[trigger] s[j].range, pos),
    ensures
        ref_at(s, pos) == Some(s[i]),
    decreases i,
{
    if i > 0 {
        assert(!holds(s[0].range, pos));
        assert forall|j: int| 0 <= j < i - 1 implies !holds(#[trigger] s.drop_first()[j].range, pos) by {
            assert(s.drop_first()[j] == s[j + 1]);
        }
        lemma_ref_at_first(s.drop_first(), pos, i - 1);
    }
}

/// The same for names.
proof fn lemma_name_at_first(s: Seq<NameAt>, pos: LineCol, i: int)
    requires
        0 <= i < s.len(),
        holds(s[i].range, pos),
        forall|j: int| 0 <= j < i ==> !holds(#[trigger] s[j].range, pos),
    ensures
        name_at(s, pos) == Some(s[i]),
    decreases i,
{
    if i > 0 {
        assert(!holds(s[0].range, pos));
        assert forall|j: int| 0 <= j < i - 1 implies !holds(#[trigger] s.drop_first()[j].range, pos) by {
            assert(s.drop_first()[j] == s[j + 1]);
        }
        lemma_name_at_first(s.drop_first(), pos, i - 1);
    }
}

/// The same for assignments.
proof fn lemma_assign_at_first(s: Seq<InlineMorphAssign>, pos: LineCol, i: int)
    requires
        0 <= i < s.len(),
        holds(s[i].symbol_range, pos),
        forall|j: int| 0 <= j < i ==> !holds(#[trigger] s[j].symbol_range, pos),
    ensures
        assign_at(s, pos) == Some(s[i]),
    decreases i,
{
    if i > 0 {
        assert(!holds(s[0].symbol_range, pos));
        assert forall|j: int| 0 <= j < i - 1 implies !holds(#[trigger] s.drop_first()[j].symbol_range, pos) by {
            assert(s.drop_first()[j] == s[j + 1]);
        }
        lemma_assign_at_first(s.drop_first(), pos, i - 1);
    }
}

/// What a hover shows of an annotation that refers to something by name:
/// the URI it refers to (the first symbol, where the name is ambiguous) as
/// `<sup>`URI`</sup>`, over the range of the name, wherever the cursor is;
/// for a variable, `Variable ` and its name; for a module, its URI over the
/// range from its start to the end of its name; for an image, the image at
/// the URL found for it.
pub proof fn lemma_hover_shows_what_is_named(a: Annot, g: Option<Seq<char>>, pos: LineCol)
    ensures
        a matches Annot::SymName { syms, name_range, .. } ==> hover_of(a, g, pos) == Some(
            (name_range, "<sup>`"@ + syms@[0].text@ + "`</sup>"@),
        ),
        a matches Annot::Symref { syms, name_range, .. } ==> hover_of(a, g, pos) == Some(
            (name_range, "<sup>`"@ + syms@[0].text@ + "`</sup>"@),
        ),
        a matches Annot::Notation { syms, name_range, .. } ==> hover_of(a, g, pos) == Some(
            (name_range, "<sup>`"@ + syms@[0].text@ + "`</sup>"@),
        ),
        a matches Annot::Symuse { syms, name_range, .. } ==> hover_of(a, g, pos) == Some(
            (name_range, "<sup>`"@ + syms@[0].text@ + "`</sup>"@),
        ),
        a matches Annot::Precondition { syms, symbol_range, .. } ==> hover_of(a, g, pos) == Some(
            (symbol_range, "<sup>`"@ + syms@[0].text@ + "`</sup>"@),
        ),
        a matches Annot::Objective { syms, symbol_range, .. } ==> hover_of(a, g, pos) == Some(
            (symbol_range, "<sup>`"@ + syms@[0].text@ + "`</sup>"@),
        ),
        a matches Annot::Definiens { syms, name_range: Some(r), .. } ==> hover_of(a, g, pos) == Some(
            (r, "<sup>`"@ + syms@[0].text@ + "`</sup>"@),
        ),
        a matches Annot::Definiens { name_range: None, .. } ==> hover_of(a, g, pos) is None,
        a matches Annot::SemanticMacro { uri, full_range, .. } ==> hover_of(a, g, pos) == Some(
            (full_range, "<sup>`"@ + uri@ + "`</sup>"@),
        ),
        a matches Annot::ConservativeExt { uri, ext_range, .. } ==> hover_of(a, g, pos) == Some(
            (ext_range, "<sup>`"@ + uri@ + "`</sup>"@),
        ),
        a matches Annot::UseStructure { structure, structure_range, .. } ==> hover_of(a, g, pos)
            == Some((structure_range, "<sup>`"@ + structure@ + "`</sup>"@)),
        a matches Annot::RenameDecl { uri, orig_range, .. } ==> hover_of(a, g, pos) == Some(
            (orig_range, "<sup>`"@ + uri@ + "`</sup>"@),
        ),
        a matches Annot::Assign { uri, orig_range, .. } ==> hover_of(a, g, pos) == Some(
            (orig_range, "<sup>`"@ + uri@ + "`</sup>"@),
        ),
        a matches Annot::MorphismEnv { domain_is_struct, domain, domain_range, .. } ==> hover_of(
            a,
            g,
            pos,
        ) == if domain_is_struct {
            Some((domain_range, "<sup>`"@ + domain@ + "`</sup>"@))
        } else {
            None
        },
        a matches Annot::Svar { name, full_range } ==> hover_of(a, g, pos) == Some(
            (full_range, "Variable <sup>`"@ + name@ + "`</sup>"@),
        ),
        a matches Annot::VariableMacro { name, full_range, .. } ==> hover_of(a, g, pos) == Some(
            (full_range, "Variable <sup>`"@ + name@ + "`</sup>"@),
        ),
        a matches Annot::Module { uri, name_range, full_range, .. } ==> hover_of(a, g, pos) == Some(
            (TextRange { start: full_range.start, end: name_range.end }, uri@),
        ),
        a matches Annot::MHGraphics { full_range, .. } ==> hover_of(a, g, pos) == match g {
            Some(u) => Some((full_range, "![img]("@ + u + ")"@)),
            None => None,
        },
{
    reveal_strlit("Variable ");
    reveal_strlit("Variable <sup>`");
    reveal_strlit("<sup>`");
    match a {
        Annot::SymName { syms, .. } => lemma_plain_note(syms@[0].text@),
        Annot::Symref { syms, .. } => lemma_plain_note(syms@[0].text@),
        Annot::Notation { syms, .. } => lemma_plain_note(syms@[0].text@),
        Annot::Symuse { syms, .. } => lemma_plain_note(syms@[0].text@),
        Annot::Precondition { syms, .. } => lemma_plain_note(syms@[0].text@),
        Annot::Objective { syms, .. } => lemma_plain_note(syms@[0].text@),
        Annot::Definiens { syms, .. } => lemma_plain_note(syms@[0].text@),
        Annot::SemanticMacro { uri, .. } => lemma_plain_note(uri@),
        Annot::ConservativeExt { uri, .. } => lemma_plain_note(uri@),
        Annot::UseStructure { structure, .. } => lemma_plain_note(structure@),
        Annot::RenameDecl { uri, .. } => lemma_plain_note(uri@),
        Annot::Assign { uri, .. } => lemma_plain_note(uri@),
        Annot::MorphismEnv { domain, .. } => lemma_plain_note(domain@),
        Annot::Svar { name, .. } => {
            assert("Variable "@ + "<sup>`"@ =~= "Variable <sup>`"@);
        },
        Annot::VariableMacro { name, .. } => {
            assert("Variable "@ + "<sup>`"@ =~= "Variable <sup>`"@);
        },
        _ => {},
    }
}

/// What a hover shows where the cursor picks among several names: on a
/// structure, the first structure it extends whose name holds the cursor;
/// on an inline morphism, its domain when that holds the cursor, else the
/// first assigned symbol whose name holds it; on a paragraph, the first
/// name of its first `for=` argument that holds it, when the argument's
/// value does.
pub proof fn lemma_hover_picks_the_name_under_the_cursor(a: Annot, g: Option<Seq<char>>, pos: LineCol, i: int)
    ensures
        (a matches Annot::MathStructure { extends, .. } && 0 <= i < extends@.len() && holds(
            extends@[i].range,
            pos,
        ) && forall|j: int| 0 <= j < i ==> !holds(#[trigger] extends@[j].range, pos)) ==> hover_of(
            a,
            g,
            pos,
        ) == Some((a->extends@[i].range, "<sup>`"@ + a->extends@[i].sym.text@ + "`</sup>"@)),
        (a matches Annot::MathStructure { extends, .. } && forall|j: int|
            0 <= j < extends@.len() ==> !holds(#[trigger] extends@[j].range, pos)) ==> hover_of(
            a,
            g,
            pos,
        ) is None,
        (a matches Annot::InlineMorphism { domain_range, domain_is_struct, domain, .. } && holds(
            domain_range,
            pos,
        )) ==> hover_of(a, g, pos) == if a->InlineMorphism_domain_is_struct {
            Some((a->InlineMorphism_domain_range, "<sup>`"@ + a->InlineMorphism_domain@ + "`</sup>"@))
        } else {
            None
        },
        (a matches Annot::InlineMorphism { domain_range, assignments, .. } && !holds(domain_range, pos)
            && 0 <= i < assignments@.len() && holds(assignments@[i].symbol_range, pos) && forall|j: int|
            0 <= j < i ==> !holds(#[trigger] assignments@[j].symbol_range, pos)) ==> hover_of(a, g, pos)
            == Some(
            (
                a->InlineMorphism_assignments@[i].symbol_range,
                "<sup>`"@ + a->InlineMorphism_assignments@[i].symbol@ + "`</sup>"@,
            ),
        ),
        (a matches Annot::Paragraph { parsed_args, .. } && first_fors(parsed_args@) matches Some(
            (vr, names),
        ) && holds(vr, pos) && 0 <= i < names.len() && holds(names[i].range, pos) && forall|j: int|
            0 <= j < i ==> !holds(#[trigger] names[j].range, pos)) ==> hover_of(a, g, pos) == Some(
            (
                first_fors(a->Paragraph_parsed_args@)->Some_0.1[i].range,
                "<sup>`"@ + first_fors(a->Paragraph_parsed_args@)->Some_0.1[i].syms@[0].text@
                    + "`</sup>"@,
            ),
        ),
{
    match a {
        Annot::MathStructure { extends, .. } => {
            if 0 <= i < extends@.len() && holds(extends@[i].range, pos) && forall|j: int|
                0 <= j < i ==> !holds(#[trigger] extends@[j].range, pos) {
                lemma_ref_at_first(extends@, pos, i);
                lemma_plain_note(extends@[i].sym.text@);
            }
            if forall|j: int| 0 <= j < extends@.len() ==> !holds(#[trigger] extends@[j].range, pos) {
                lemma_ref_at_none(extends@, pos);
            }
        },
        Annot::InlineMorphism { domain, assignments, .. } => {
            lemma_plain_note(domain@);
            if 0 <= i < assignments@.len() && holds(assignments@[i].symbol_range, pos) && forall|j: int|
                0 <= j < i ==> !holds(#[trigger] assignments@[j].symbol_range, pos) {
                lemma_assign_at_first(assignments@, pos, i);
                lemma_plain_note(assignments@[i].symbol@);
            }
        },
        Annot::Paragraph { parsed_args, .. } => {
            if let Some((vr, names)) = first_fors(parsed_args@) {
                if 0 <= i < names.len() && holds(names[i].range, pos) && forall|j: int|
                    0 <= j < i ==> !holds(#[trigger] names[j].range, pos) {
                    lemma_name_at_first(names, pos, i);
                    lemma_plain_note(names[i].syms@[0].text@);
                }
            }
        },
        _ => {},
    }
}

proof fn lemma_ref_at_none(s: Seq<RefAt>, pos: LineCol)
    requires
        forall|j: int| 0 <= j < s.len() ==> !holds(#[trigger] s[j].range, pos),
    ensures
        ref_at(s, pos) is None,
    decreases s.len(),
{
    if s.len() > 0 {
        assert(!holds(s[0].range, pos));
        assert forall|j: int| 0 <= j < s.len() - 1 implies !holds(#[trigger] s.drop_first()[j].range, pos) by {
            assert(s.drop_first()[j] == s[j + 1]);
        }
        lemma_ref_at_none(s.drop_first(), pos);
    }
}

} // verus!
