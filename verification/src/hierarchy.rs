use crate::annotations::{Annot, RefAt, TextRange, LineCol};
use crate::definition::{doc_start, file_url, url_of_file};
use crate::lsp::{joined, name_text};
use crate::text::push_char;
use vstd::string::*;
use vstd::prelude::*;

verus! {

/// What the incoming calls of a call hierarchy are asked for: a whole file,
/// a module by its URI, a structure by its symbol's URI, or anything else.
pub enum HierarchyTarget {
    File,
    Module(String),
    Structure(String),
    Other,
}

/// The kind of an entry of a call hierarchy, as the editor shows it.
#[derive(Clone, Copy, Debug, PartialEq, Eq, Structural)]
pub enum CallKind {
    Class,
    Module,
    Method,
    Struct,
}

/// An incoming call: the range it comes from, and the item it comes from
/// (name, detail, kind, document, range, selection range, and the URI it
/// stands for as data).
pub struct IncomingCall {
    pub from_range: TextRange,
    pub name: String,
    pub detail: String,
    pub kind: CallKind,
    pub url: String,
    pub range: TextRange,
    pub selection_range: TextRange,
    pub data: String,
}

/// An incoming call as plain values, in the order of `IncomingCall`'s fields.
pub type CallSpec = (TextRange, Seq<char>, Seq<char>, CallKind, Seq<char>, TextRange, TextRange, Seq<char>);

/// An incoming call as plain values.
pub open spec fn call_view(c: IncomingCall) -> CallSpec {
    (c.from_range, c.name@, c.detail@, c.kind, c.url@, c.range, c.selection_range, c.data@)
}

/// Incoming calls as plain values, in order.
pub open spec fn calls_view(v: Seq<IncomingCall>) -> Seq<CallSpec> {
    v.map_values(|c: IncomingCall| call_view(c))
}

/// What follows the first `a=` of `s`, if it holds one.
pub open spec fn after_marker(s: Seq<char>) -> Option<Seq<char>>
    decreases s.len(),
{
    if s.len() < 2 {
        None
    } else if s[0] == 'a' && s[1] == '=' {
        Some(s.skip(2))
    } else {
        after_marker(s.drop_first())
    }
}

/// The detail shown for a URI: what follows its first `a=`.
pub open spec fn detail_of(uri: Seq<char>) -> Seq<char> {
    after_marker(uri)->Some_0
}

/// The annotations nested in `a`: the contents of an environment.
pub open spec fn children_of(a: Annot) -> Seq<Annot> {
    match a {
        Annot::Module { children, .. } => children@,
        Annot::MathStructure { children, .. } => children@,
        Annot::ConservativeExt { children, .. } => children@,
        Annot::MorphismEnv { children, .. } => children@,
        Annot::Problem { children, .. } => children@,
        Annot::Paragraph { children, .. } => children@,
        Annot::InlineParagraph { children, .. } => children@,
        _ => Seq::empty(),
    }
}

/// The call from an import of a module, when its file has a URL.
pub open spec fn import_call(
    module: Seq<char>,
    name: Seq<char>,
    file: Option<String>,
    full_range: TextRange,
    kind: CallKind,
) -> Seq<CallSpec> {
    match file {
        Some(p) => match file_url(p@) {
            Some(u) => seq![(doc_start(), name, detail_of(module), kind, u, full_range, full_range, module)],
            None => Seq::empty(),
        },
        None => Seq::empty(),
    }
}

/// The calls that the annotation `a` of the document at `doc`, and the
/// annotations nested in it, each before those nested in it, contribute:
/// with `usemods`, its modules and `\usemodule`s; else its
/// `\importmodule`s.
pub open spec fn annot_calls(a: Annot, doc: Seq<char>, usemods: bool) -> Seq<CallSpec>
    decreases a,
{
    let own = match a {
        Annot::ImportModule { module, module_name, module_file, full_range, .. } => if !usemods {
            import_call(module@, module_name@, module_file, full_range, CallKind::Class)
        } else {
            Seq::empty()
        },
        Annot::UseModule { module, module_name, module_file, full_range, .. } => if usemods {
            import_call(module@, module_name@, module_file, full_range, CallKind::Method)
        } else {
            Seq::empty()
        },
        Annot::Module { uri, module_name, name_range, full_range, .. } => if usemods {
            seq![
                (full_range, module_name@, detail_of(uri@), CallKind::Module, doc, full_range, name_range, uri@),
            ]
        } else {
            Seq::empty()
        },
        _ => Seq::empty(),
    };
    own + match a {
        Annot::Module { children, .. } => annots_calls(children@, doc, usemods),
        Annot::MathStructure { children, .. } => annots_calls(children@, doc, usemods),
        Annot::ConservativeExt { children, .. } => annots_calls(children@, doc, usemods),
        Annot::MorphismEnv { children, .. } => annots_calls(children@, doc, usemods),
        Annot::Problem { children, .. } => annots_calls(children@, doc, usemods),
        Annot::Paragraph { children, .. } => annots_calls(children@, doc, usemods),
        Annot::InlineParagraph { children, .. } => annots_calls(children@, doc, usemods),
        _ => Seq::empty(),
    }
}

/// The calls of the annotations, one after the other.
pub open spec fn annots_calls(s: Seq<Annot>, doc: Seq<char>, usemods: bool) -> Seq<CallSpec>
    decreases s,
{
    if s.len() == 0 {
        Seq::empty()
    } else {
        annots_calls(s.subrange(0, s.len() - 1), doc, usemods) + annot_calls(s[s.len() - 1], doc, usemods)
    }
}

/// The calls from the structures that a structure extends, where their
/// definitions' files have URLs: each named by the symbol's name.
pub open spec fn extends_calls(s: Seq<RefAt>) -> Seq<CallSpec>
    decreases s.len(),
{
    if s.len() == 0 {
        Seq::empty()
    } else {
        let x = s[0];
        (match x.sym.def {
            Some((p, _)) => match file_url(p@) {
                Some(u) => seq![
                    (x.range, joined(x.sym.uri.name@), detail_of(x.sym.text@), CallKind::Struct, u, doc_start(), doc_start(), x.sym.text@),
                ],
                None => Seq::empty(),
            },
            None => Seq::empty(),
        }) + extends_calls(s.drop_first())
    }
}

/// The first of the annotations that is the target: the module with its
/// URI, or the structure with its symbol's URI.
pub open spec fn find_target(s: Seq<Annot>, t: HierarchyTarget) -> Option<Annot>
    decreases s.len(),
{
    if s.len() == 0 {
        None
    } else if is_target(s[0], t) {
        Some(s[0])
    } else {
        find_target(s.drop_first(), t)
    }
}

proof fn lemma_found_is_target(s: Seq<Annot>, t: HierarchyTarget)
    ensures
        find_target(s, t) matches Some(a) ==> is_target(a, t),
    decreases s.len(),
{
    if s.len() > 0 && !is_target(s[0], t) {
        lemma_found_is_target(s.drop_first(), t);
    }
}

/// The annotation is the target.
pub open spec fn is_target(a: Annot, t: HierarchyTarget) -> bool {
    match (a, t) {
        (Annot::Module { uri, .. }, HierarchyTarget::Module(u)) => uri@ == u@,
        (Annot::MathStructure { uri, .. }, HierarchyTarget::Structure(u)) => uri@ == u@,
        _ => false,
    }
}

/// The incoming calls of the target among the annotations `annots` of the
/// document at `doc`, if the target is there: for a file, the modules and
/// `\usemodule`s of the whole document; for a module or structure, the
/// structures it extends and then the `\importmodule`s in it.
pub open spec fn hierarchy_of(annots: Seq<Annot>, doc: Seq<char>, t: HierarchyTarget) -> Option<Seq<CallSpec>> {
    match t {
        HierarchyTarget::File => Some(annots_calls(annots, doc, true)),
        _ => match find_target(annots, t) {
            Some(a) => Some(
                match a {
                    Annot::MathStructure { extends, .. } => extends_calls(extends@),
                    _ => Seq::empty(),
                } + annots_calls(children_of(a), doc, false),
            ),
            None => None,
        },
    }
}

/// Every URI the hierarchy shows a detail of holds an `a=`, as the parser
/// gives them.
pub open spec fn uris_marked(a: Annot) -> bool
    decreases a,
{
    match a {
        Annot::ImportModule { module, .. } => after_marker(module@) is Some,
        Annot::UseModule { module, .. } => after_marker(module@) is Some,
        Annot::Module { uri, children, .. } => after_marker(uri@) is Some && all_marked(children@),
        Annot::MathStructure { extends, children, .. } => (forall|i: int|
            0 <= i < extends@.len() ==> after_marker((#[trigger] extends@[i]).sym.text@) is Some)
            && all_marked(children@),
        Annot::ConservativeExt { children, .. } => all_marked(children@),
        Annot::MorphismEnv { children, .. } => all_marked(children@),
        Annot::Problem { children, .. } => all_marked(children@),
        Annot::Paragraph { children, .. } => all_marked(children@),
        Annot::InlineParagraph { children, .. } => all_marked(children@),
        _ => true,
    }
}

/// Each of the annotations is as `uris_marked` asks.
pub open spec fn all_marked(s: Seq<Annot>) -> bool
    decreases s,
{
    if s.len() == 0 {
        true
    } else {
        all_marked(s.subrange(0, s.len() - 1)) && uris_marked(s[s.len() - 1])
    }
}

proof fn lemma_all_marked_each(s: Seq<Annot>, i: int)
    requires
        all_marked(s),
        0 <= i < s.len(),
    ensures
        uris_marked(s[i]),
    decreases s.len(),
{
    if i < s.len() - 1 {
        lemma_all_marked_each(s.subrange(0, s.len() - 1), i);
    }
}

/// `detail_of`, computed.
fn detail_text(s: &str) -> (r: String)
    requires
        after_marker(s@) is Some,
    ensures
        r@ == detail_of(s@),
{
    let n = s.unicode_len();
    let mut i: usize = 0;
    assert(s@.skip(0) =~= s@);
    while i < n && i + 1 < n && !(s.get_char(i) == 'a' && s.get_char(i + 1) == '=')
        invariant
            n == s@.len(),
            i <= n,
            after_marker(s@.skip(i as int)) == after_marker(s@),
        decreases n - i,
    {
        assert(s@.skip(i as int).drop_first() =~= s@.skip(i + 1));
        i = i + 1;
    }
    let ghost t = s@.skip(i as int);
    if i >= n || i + 1 >= n {
        assert(t.len() < 2);
        assert(false);
    }
    assert(t[0] == s@[i as int] && t[1] == s@[i + 1]);
    let mut out = String::new();
    let mut j: usize = i + 2;
    while j < n
        invariant
            n == s@.len(),
            i + 2 <= j <= n,
            out@ == s@.subrange(i + 2, j as int),
        decreases n - j,
    {
        push_char(&mut out, s.get_char(j));
        assert(s@.subrange(i + 2, j + 1) =~= s@.subrange(i + 2, j as int).push(s@[j as int]));
        j = j + 1;
    }
    assert(t.skip(2) =~= s@.subrange(i + 2, n as int));
    out
}

fn push_call(out: &mut Vec<IncomingCall>, c: IncomingCall)
    ensures
        calls_view(final(out)@) == calls_view(old(out)@).push(call_view(c)),
{
    let ghost before = out@;
    out.push(c);
    assert(calls_view(out@) =~= calls_view(before).push(call_view(c)));
}

fn zero() -> (r: TextRange)
    ensures
        r == doc_start(),
{
    TextRange { start: LineCol { line: 0, col: 0 }, end: LineCol { line: 0, col: 0 } }
}

fn import_into(
    out: &mut Vec<IncomingCall>,
    module: &String,
    name: &String,
    file: &Option<String>,
    full_range: TextRange,
    kind: CallKind,
)
    requires
        after_marker(module@) is Some,
    ensures
        calls_view(final(out)@) == calls_view(old(out)@) + import_call(module@, name@, *file, full_range, kind),
{
    let ghost before = calls_view(out@);
    match file {
        Some(p) => match url_of_file(p.as_str()) {
            Some(u) => {
                push_call(
                    out,
                    IncomingCall {
                        from_range: zero(),
                        name: name.clone(),
                        detail: detail_text(module.as_str()),
                        kind,
                        url: u,
                        range: full_range,
                        selection_range: full_range,
                        data: module.clone(),
                    },
                );
            },
            None => {},
        },
        None => {},
    }
    assert(calls_view(out@) =~= before + import_call(module@, name@, *file, full_range, kind));
}

fn annots_calls_into(v: &Vec<Annot>, doc: &str, usemods: bool, out: &mut Vec<IncomingCall>)
    requires
        all_marked(v@),
    ensures
        calls_view(final(out)@) == calls_view(old(out)@) + annots_calls(v@, doc@, usemods),
    decreases v,
{
    let ghost start = calls_view(out@);
    let mut i: usize = 0;
    while i < v.len()
        invariant
            i <= v@.len(),
            all_marked(v@),
            calls_view(out@) == start + annots_calls(v@.take(i as int), doc@, usemods),
        decreases v@.len() - i,
    {
        proof {
            assert(decreases_to!(v => v@[i as int]));
            assert(v@.take(i + 1).subrange(0, i as int) =~= v@.take(i as int));
            lemma_all_marked_each(v@, i as int);
        }
        annot_calls_into(&v[i], doc, usemods, out);
        assert(calls_view(out@) =~= start + annots_calls(v@.take(i + 1), doc@, usemods));
        i = i + 1;
    }
    assert(v@.take(v@.len() as int) =~= v@);
}

/// Appends the calls of the annotation `a` and those nested in it (see
/// `annot_calls`).
fn annot_calls_into(a: &Annot, doc: &str, usemods: bool, out: &mut Vec<IncomingCall>)
    requires
        uris_marked(*a),
    ensures
        calls_view(final(out)@) == calls_view(old(out)@) + annot_calls(*a, doc@, usemods),
    decreases a,
{
    let ghost start = calls_view(out@);
    match a {
        Annot::ImportModule { module, module_name, module_file, full_range, .. } => {
            if !usemods {
                import_into(out, module, module_name, module_file, *full_range, CallKind::Class);
            }
        },
        Annot::UseModule { module, module_name, module_file, full_range, .. } => {
            if usemods {
                import_into(out, module, module_name, module_file, *full_range, CallKind::Method);
            }
        },
        Annot::Module { uri, module_name, name_range, full_range, children, .. } => {
            if usemods {
                push_call(
                    out,
                    IncomingCall {
                        from_range: *full_range,
                        name: module_name.clone(),
                        detail: detail_text(uri.as_str()),
                        kind: CallKind::Module,
                        url: doc.to_string(),
                        range: *full_range,
                        selection_range: *name_range,
                        data: uri.clone(),
                    },
                );
            }
            annots_calls_into(children, doc, usemods, out);
        },
        Annot::MathStructure { children, .. } | Annot::ConservativeExt { children, .. }
        | Annot::MorphismEnv { children, .. } | Annot::Problem { children, .. }
        | Annot::Paragraph { children, .. } | Annot::InlineParagraph { children, .. } => {
            annots_calls_into(children, doc, usemods, out);
        },
        _ => {},
    }
    assert(calls_view(out@) =~= start + annot_calls(*a, doc@, usemods));
}

fn extends_into(v: &Vec<RefAt>, out: &mut Vec<IncomingCall>)
    requires
        forall|i: int| 0 <= i < v@.len() ==> after_marker((#[trigger] v@[i]).sym.text@) is Some,
    ensures
        calls_view(final(out)@) == calls_view(old(out)@) + extends_calls(v@),
{
    let ghost start = calls_view(out@);
    let mut i: usize = 0;
    assert(v@.skip(0) =~= v@);
    while i < v.len()
        invariant
            i <= v@.len(),
            forall|k: int| 0 <= k < v@.len() ==> after_marker((#[trigger] v@[k]).sym.text@) is Some,
            start + extends_calls(v@) == calls_view(out@) + extends_calls(v@.skip(i as int)),
        decreases v@.len() - i,
    {
        let x = &v[i];
        let ghost mid = calls_view(out@);
        assert(v@.skip(i as int)[0] == v@[i as int]);
        assert(v@.skip(i as int).drop_first() =~= v@.skip(i + 1));
        match &x.sym.def {
            Some((p, _)) => match url_of_file(p.as_str()) {
                Some(u) => {
                    let nm = name_text(&x.sym.uri.name);
                    push_call(
                        out,
                        IncomingCall {
                            from_range: x.range,
                            name: nm,
                            detail: detail_text(x.sym.text.as_str()),
                            kind: CallKind::Struct,
                            url: u,
                            range: zero(),
                            selection_range: zero(),
                            data: x.sym.text.clone(),
                        },
                    );
                },
                None => {},
            },
            None => {},
        }
        assert(mid + extends_calls(v@.skip(i as int)) =~= calls_view(out@) + extends_calls(v@.skip(i + 1)));
        i = i + 1;
    }
    assert(v@.skip(i as int) =~= Seq::<RefAt>::empty());
    assert(calls_view(out@) + Seq::<CallSpec>::empty() =~= calls_view(out@));
}

fn find_target_index(v: &Vec<Annot>, t: &HierarchyTarget) -> (r: Option<usize>)
    ensures
        match find_target(v@, *t) {
            None => r is None,
            Some(a) => r matches Some(k) && k < v@.len() && v@[k as int] == a,
        },
{
    let mut i: usize = 0;
    assert(v@.skip(0) =~= v@);
    while i < v.len()
        invariant
            i <= v@.len(),
            find_target(v@, *t) == find_target(v@.skip(i as int), *t),
        decreases v@.len() - i,
    {
        assert(v@.skip(i as int)[0] == v@[i as int]);
        assert(v@.skip(i as int).drop_first() =~= v@.skip(i + 1));
        let hit = match (&v[i], t) {
            (Annot::Module { uri, .. }, HierarchyTarget::Module(u)) => same_text(uri.as_str(), u.as_str()),
            (Annot::MathStructure { uri, .. }, HierarchyTarget::Structure(u)) => same_text(
                uri.as_str(),
                u.as_str(),
            ),
            _ => false,
        };
        if hit {
            return Some(i);
        }
        i = i + 1;
    }
    assert(v@.skip(i as int).len() == 0);
    None
}

/// `a` and `b` hold the same text.
fn same_text(a: &str, b: &str) -> (r: bool)
    ensures
        r == (a@ == b@),
{
    let n = a.unicode_len();
    if n != b.unicode_len() {
        return false;
    }
    let mut i: usize = 0;
    while i < n
        invariant
            n == a@.len(),
            n == b@.len(),
            i <= n,
            forall|k: int| 0 <= k < i ==> a@[k] == b@[k],
        decreases n - i,
    {
        if a.get_char(i) != b.get_char(i) {
            return false;
        }
        i = i + 1;
    }
    assert(a@ =~= b@);
    true
}

/// The incoming calls of the target among the annotations `annots` of the
/// document at `doc` (see `hierarchy_of`); none where the target is not
/// among them.
pub fn hierarchy_calls(annots: &Vec<Annot>, doc: &str, t: &HierarchyTarget) -> (r: Option<Vec<IncomingCall>>)
    requires
        all_marked(annots@),
    ensures
        match (r, hierarchy_of(annots@, doc@, *t)) {
            (None, None) => true,
            (Some(v), Some(calls)) => calls_view(v@) == calls,
            _ => false,
        },
{
    let mut out: Vec<IncomingCall> = Vec::new();
    assert(calls_view(out@) =~= Seq::<CallSpec>::empty());
    match t {
        HierarchyTarget::File => {
            annots_calls_into(annots, doc, true, &mut out);
            assert(calls_view(out@) =~= annots_calls(annots@, doc@, true));
            Some(out)
        },
        _ => match find_target_index(annots, t) {
            None => None,
            Some(k) => {
                proof {
                    lemma_all_marked_each(annots@, k as int);
                    lemma_found_is_target(annots@, *t);
                }
                match &annots[k] {
                    Annot::Module { children, .. } => {
                        annots_calls_into(children, doc, false, &mut out);
                    },
                    Annot::MathStructure { extends, children, .. } => {
                        extends_into(extends, &mut out);
                        annots_calls_into(children, doc, false, &mut out);
                    },
                    _ => {},
                }
                assert(calls_view(out@) =~= match annots@[k as int] {
                    Annot::MathStructure { extends, .. } => extends_calls(extends@),
                    _ => Seq::empty(),
                } + annots_calls(children_of(annots@[k as int]), doc@, false));
                Some(out)
            },
        },
    }
}

/// What a single annotation adds to a call hierarchy: an import, only when
/// imports are asked for, a call of kind class from its module's file; a
/// `\usemodule`, only when modules are asked for, a call of kind method
/// from its module's file; a module, when modules are asked for, a call
/// of kind module from the document itself, before those of its contents;
/// an import whose module's file is unknown adds nothing.
pub proof fn lemma_calls_of_one(a: Annot, doc: Seq<char>, usemods: bool, path: String, u: Seq<char>)
    ensures
        (a matches Annot::ImportModule { module_file, .. } && module_file == Some(path) && file_url(path@)
            == Some(u)) ==> annot_calls(a, doc, usemods) == if usemods {
            Seq::<CallSpec>::empty()
        } else {
            seq![
                (
                    doc_start(),
                    a->ImportModule_module_name@,
                    detail_of(a->ImportModule_module@),
                    CallKind::Class,
                    u,
                    a->ImportModule_full_range,
                    a->ImportModule_full_range,
                    a->ImportModule_module@,
                ),
            ]
        },
        (a matches Annot::UseModule { module_file, .. } && module_file == Some(path) && file_url(path@)
            == Some(u)) ==> annot_calls(a, doc, usemods) == if usemods {
            seq![
                (
                    doc_start(),
                    a->UseModule_module_name@,
                    detail_of(a->UseModule_module@),
                    CallKind::Method,
                    u,
                    a->UseModule_full_range,
                    a->UseModule_full_range,
                    a->UseModule_module@,
                ),
            ]
        } else {
            Seq::<CallSpec>::empty()
        },
        (a matches Annot::ImportModule { module_file: None, .. }) ==> annot_calls(a, doc, usemods).len() == 0,
        (a matches Annot::UseModule { module_file: None, .. }) ==> annot_calls(a, doc, usemods).len() == 0,
        a matches Annot::Module { uri, module_name, name_range, full_range, children, .. } ==> (usemods
            ==> annot_calls(a, doc, usemods) == seq![
            (full_range, module_name@, detail_of(uri@), CallKind::Module, doc, full_range, name_range, uri@),
        ] + annots_calls(children@, doc, usemods)),
        (a matches Annot::Module { children, .. } && !usemods) ==> annot_calls(a, doc, usemods)
            == annots_calls(a->Module_children@, doc, usemods),
        (a is Symref || a is SymName || a is Symdecl || a is Svar) ==> annot_calls(a, doc, usemods).len() == 0,
{
    match a {
        Annot::Module { children, .. } => {
            if !usemods {
                assert(Seq::<CallSpec>::empty() + annots_calls(children@, doc, usemods) =~= annots_calls(
                    children@,
                    doc,
                    usemods,
                ));
            }
        },
        Annot::ImportModule { .. } | Annot::UseModule { .. } => {
            assert(forall|x: Seq<CallSpec>| x + Seq::<CallSpec>::empty() =~= x);
        },
        _ => {},
    }
}

/// The detail of a URI is what follows its first `a=`.
pub proof fn lemma_detail(pre: Seq<char>, rest: Seq<char>)
    requires
        forall|i: int| 0 <= i < pre.len() - 1 ==> !(#[trigger] pre[i] == 'a' && pre[i + 1] == '='),
        pre.len() == 0 || pre.last() != 'a',
    ensures
        detail_of(pre + "a="@ + rest) == rest,
    decreases pre.len(),
{
    reveal_strlit("a=");
    let s = pre + "a="@ + rest;
    if pre.len() == 0 {
        assert(s.skip(2) =~= rest);
    } else {
        assert(!(s[0] == 'a' && s[1] == '=')) by {
            if pre.len() >= 2 {
                assert(s[1] == pre[1]);
            } else {
                assert(s[1] == 'a');
            }
        }
        assert(s.drop_first() =~= pre.drop_first() + "a="@ + rest);
        assert forall|i: int| 0 <= i < pre.drop_first().len() - 1 implies !(#[trigger] pre.drop_first()[i] == 'a'
            && pre.drop_first()[i + 1] == '=') by {
            assert(pre.drop_first()[i] == pre[i + 1]);
            assert(pre.drop_first()[i + 1] == pre[i + 2]);
        }
        if pre.drop_first().len() > 0 {
            assert(pre.drop_first().last() == pre.last());
        }
        lemma_detail(pre.drop_first(), rest);
    }
}

} // verus!
