use crate::annotations::{Annot, AssignKind, Def, InlineMorphAssign, KeyArg, LineCol, RefAt, TextRange};
use crate::hover::{find_name, first_fors, holds, name_at, names_resolved, range_holds, refs_resolved};
use vstd::prelude::*;

verus! {

/// The `file:` URL that `url::Url::from_file_path` makes of a path, as
/// text; none for a path it refuses (one that is not absolute).
pub uninterp spec fn file_url(path: Seq<char>) -> Option<Seq<char>>;

/// `url::Url::from_file_path`: the `file:` URL of the path `path`, as text,
/// or none where the crate refuses the path. Claimed: the outcome is
/// `file_url` of the path, which depends on the path alone (on the platform
/// the library is built for).
#[verifier::external_body]
pub(crate) fn url_of_file(path: &str) -> (r: Option<String>)
    ensures
        match r {
            Some(u) => file_url(path@) == Some(u@),
            None => file_url(path@) is None,
        },
{
    match url::Url::from_file_path(path) {
        Ok(u) => Some(u.to_string()),
        Err(()) => None,
    }
}

/// A place that a definition is at: a document's URL and a range in it.
pub struct Location {
    pub url: String,
    pub range: TextRange,
}

/// The definition at `d`, in its file's URL, if its file is known and has
/// one.
pub open spec fn def_location(d: Def) -> Option<(Seq<char>, TextRange)> {
    match d {
        Some((path, range)) => match file_url(path@) {
            Some(u) => Some((u, range)),
            None => None,
        },
        None => None,
    }
}

/// The start of a document.
pub open spec fn doc_start() -> TextRange {
    TextRange { start: LineCol { line: 0, col: 0 }, end: LineCol { line: 0, col: 0 } }
}

/// The first `KeyArg::Id` among `s` whose range holds `pos`.
pub open spec fn id_at(s: Seq<KeyArg>, pos: LineCol) -> Option<TextRange>
    decreases s.len(),
{
    if s.len() == 0 {
        None
    } else {
        match s[0] {
            KeyArg::Id(r) => if holds(r, pos) {
                Some(r)
            } else {
                id_at(s.drop_first(), pos)
            },
            _ => id_at(s.drop_first(), pos),
        }
    }
}

/// The value of the first `name=` argument among `s` that holds `pos`.
pub open spec fn name_arg_at(s: Seq<KeyArg>, pos: LineCol) -> Option<TextRange>
    decreases s.len(),
{
    if s.len() == 0 {
        None
    } else {
        match s[0] {
            KeyArg::KeyName { val, .. } => if holds(val, pos) {
                Some(val)
            } else {
                name_arg_at(s.drop_first(), pos)
            },
            _ => name_arg_at(s.drop_first(), pos),
        }
    }
}

/// What a paragraph's arguments `s` lead to at `pos`, going through them in
/// order: the first `for=` argument ends the search, at the definition of
/// the first symbol of the name under `pos` when its value holds `pos`; a
/// `name=` argument whose value holds `pos` is itself the place.
pub open spec fn paragraph_def(s: Seq<KeyArg>, doc: Seq<char>, pos: LineCol) -> Option<
    (Seq<char>, TextRange),
>
    decreases s.len(),
{
    if s.len() == 0 {
        None
    } else {
        match s[0] {
            KeyArg::Fors { val_range, symbols, .. } => if holds(val_range, pos) {
                match name_at(symbols@, pos) {
                    Some(n) => def_location(n.syms@[0].def),
                    None => None,
                }
            } else {
                None
            },
            KeyArg::KeyName { val, .. } => if holds(val, pos) {
                Some((doc, val))
            } else {
                paragraph_def(s.drop_first(), doc, pos)
            },
            _ => paragraph_def(s.drop_first(), doc, pos),
        }
    }
}

/// What the assignments `s` of an inline morphism lead to at `pos`: the
/// assigned symbol's definition file, at the range where it is named, or a
/// renaming's new name.
pub open spec fn assigns_def(s: Seq<InlineMorphAssign>, doc: Seq<char>, pos: LineCol) -> Option<
    (Seq<char>, TextRange),
>
    decreases s.len(),
{
    if s.len() == 0 {
        None
    } else if holds(s[0].symbol_range, pos) {
        match s[0].def {
            Some((path, _)) => match file_url(path@) {
                Some(u) => Some((u, s[0].symbol_range)),
                None => None,
            },
            None => None,
        }
    } else if (s[0].first matches Some((_, AssignKind::Rename(_, r))) && holds(r, pos)) {
        Some((doc, s[0].first->Some_0.1->Rename_1))
    } else if (s[0].second matches Some((_, AssignKind::Rename(_, r))) && holds(r, pos)) {
        Some((doc, s[0].second->Some_0.1->Rename_1))
    } else {
        assigns_def(s.drop_first(), doc, pos)
    }
}

/// The range an import names its module by: from the archive, where it is
/// given, to the end of the path.
pub open spec fn import_range(archive_range: Option<TextRange>, path_range: TextRange) -> TextRange {
    match archive_range {
        Some(a) => TextRange { start: a.start, end: path_range.end },
        None => path_range,
    }
}

/// Where the definition of what is at `pos` in the annotation `a` of the
/// document at `doc` is: a URL and a range, if anything there has a
/// definition that can be found.
pub open spec fn definition_of(a: Annot, doc: Seq<char>, pos: LineCol) -> Option<
    (Seq<char>, TextRange),
> {
    match a {
        Annot::Module { name_range, .. } => if holds(name_range, pos) {
            Some((doc, name_range))
        } else {
            None
        },
        Annot::MathStructure { extends, name_range, opts, .. } => if holds(name_range, pos) {
            Some((doc, name_range))
        } else {
            match id_at(opts@, pos) {
                Some(r) => Some((doc, r)),
                None => first_extends_def(extends@, pos),
            }
        },
        Annot::MorphismEnv { name_range, domain_range, domain_def, .. } => if holds(name_range, pos) {
            Some((doc, name_range))
        } else if holds(domain_range, pos) {
            def_location(domain_def)
        } else {
            None
        },
        Annot::InlineMorphism { name_range, domain_range, domain_def, assignments, .. } => if holds(
            name_range,
            pos,
        ) {
            Some((doc, name_range))
        } else if holds(domain_range, pos) {
            def_location(domain_def)
        } else {
            assigns_def(assignments@, doc, pos)
        },
        Annot::Paragraph { parsed_args, .. } => paragraph_def(parsed_args@, doc, pos),
        Annot::InlineParagraph { parsed_args, .. } => paragraph_def(parsed_args@, doc, pos),
        Annot::Symdecl { main_name_range, parsed_args, .. } => decl_def(main_name_range, parsed_args@, doc, pos),
        Annot::TextSymdecl { main_name_range, parsed_args, .. } => decl_def(main_name_range, parsed_args@, doc, pos),
        Annot::Symdef { main_name_range, parsed_args, .. } => decl_def(main_name_range, parsed_args@, doc, pos),
        Annot::Vardef { main_name_range, parsed_args, .. } => decl_def(main_name_range, parsed_args@, doc, pos),
        Annot::Varseq { main_name_range, parsed_args, .. } => decl_def(main_name_range, parsed_args@, doc, pos),
        Annot::RenameDecl { def, orig_range, name_range, macroname_range, .. } => if (name_range matches Some(n) && holds(n, pos)) {
            Some((doc, name_range->Some_0))
        } else if holds(macroname_range, pos) {
            Some((doc, macroname_range))
        } else if holds(orig_range, pos) {
            def_location(def)
        } else {
            None
        },
        Annot::ImportModule { module_file, archive_range, path_range, .. } => module_def(module_file, archive_range, path_range, pos),
        Annot::UseModule { module_file, archive_range, path_range, .. } => module_def(module_file, archive_range, path_range, pos),
        Annot::SetMetatheory { module_file, archive_range, path_range, .. } => module_def(module_file, archive_range, path_range, pos),
        Annot::ConservativeExt { ext_range, def, .. } => if holds(ext_range, pos) {
            def_location(def)
        } else {
            None
        },
        Annot::SymName { syms, name_range, .. } => first_sym_def(syms@[0].def, name_range, pos),
        Annot::Symref { syms, name_range, .. } => first_sym_def(syms@[0].def, name_range, pos),
        Annot::Notation { syms, name_range, .. } => first_sym_def(syms@[0].def, name_range, pos),
        Annot::Symuse { syms, name_range, .. } => first_sym_def(syms@[0].def, name_range, pos),
        Annot::Precondition { syms, symbol_range, .. } => first_sym_def(syms@[0].def, symbol_range, pos),
        Annot::Objective { syms, symbol_range, .. } => first_sym_def(syms@[0].def, symbol_range, pos),
        Annot::Definiens { syms, name_range, .. } => match name_range {
            Some(r) => first_sym_def(syms@[0].def, r, pos),
            None => None,
        },
        Annot::SemanticMacro { def, token_range, .. } => first_sym_def(def, token_range, pos),
        Annot::UseStructure { def, structure_range, .. } => first_sym_def(def, structure_range, pos),
        Annot::Assign { def, orig_range, .. } => first_sym_def(def, orig_range, pos),
        Annot::VariableMacro { orig, full_range, .. } => if holds(full_range, pos) {
            Some((doc, orig))
        } else {
            None
        },
        _ => None,
    }
}

/// The definition of a referenced symbol, when the range it is named at
/// holds `pos`.
pub open spec fn first_sym_def(d: Def, range: TextRange, pos: LineCol) -> Option<(Seq<char>, TextRange)> {
    if holds(range, pos) {
        def_location(d)
    } else {
        None
    }
}

/// A declaration's own name, or the value of a `name=` argument, when it
/// holds `pos`.
pub open spec fn decl_def(main: TextRange, args: Seq<KeyArg>, doc: Seq<char>, pos: LineCol) -> Option<
    (Seq<char>, TextRange),
> {
    if holds(main, pos) {
        Some((doc, main))
    } else {
        match name_arg_at(args, pos) {
            Some(r) => Some((doc, r)),
            None => None,
        }
    }
}

/// The start of an imported module's file, when the import names it at
/// `pos`.
pub open spec fn module_def(
    file: Option<String>,
    archive_range: Option<TextRange>,
    path_range: TextRange,
    pos: LineCol,
) -> Option<(Seq<char>, TextRange)> {
    if holds(import_range(archive_range, path_range), pos) {
        match file {
            Some(p) => match file_url(p@) {
                Some(u) => Some((u, doc_start())),
                None => None,
            },
            None => None,
        }
    } else {
        None
    }
}

/// The first structure extended at `pos` whose definition can be found.
pub open spec fn first_extends_def(s: Seq<RefAt>, pos: LineCol) -> Option<
    (Seq<char>, TextRange),
>
    decreases s.len(),
{
    if s.len() == 0 {
        None
    } else if holds(s[0].range, pos) && def_location(s[0].sym.def) is Some {
        def_location(s[0].sym.def)
    } else {
        first_extends_def(s.drop_first(), pos)
    }
}

/// The definition at `d` as a location.
fn locate(d: &Def) -> (r: Option<Location>)
    ensures
        match (r, def_location(*d)) {
            (None, None) => true,
            (Some(l), Some((u, range))) => l.url@ == u && l.range == range,
            _ => false,
        },
{
    match d {
        Some((path, range)) => match url_of_file(path.as_str()) {
            Some(u) => Some(Location { url: u, range: *range }),
            None => None,
        },
        None => None,
    }
}

fn at(doc: &str, range: TextRange) -> (r: Option<Location>)
    ensures
        r matches Some(l) && l.url@ == doc@ && l.range == range,
{
    Some(Location { url: doc.to_string(), range })
}

fn find_id(v: &Vec<KeyArg>, pos: LineCol) -> (r: Option<TextRange>)
    ensures
        r == id_at(v@, pos),
{
    let mut i: usize = 0;
    assert(v@.skip(0) =~= v@);
    while i < v.len()
        invariant
            i <= v@.len(),
            id_at(v@, pos) == id_at(v@.skip(i as int), pos),
        decreases v@.len() - i,
    {
        assert(v@.skip(i as int)[0] == v@[i as int]);
        assert(v@.skip(i as int).drop_first() =~= v@.skip(i + 1));
        if let KeyArg::Id(r) = &v[i] {
            if range_holds(r, pos) {
                return Some(*r);
            }
        }
        i = i + 1;
    }
    assert(v@.skip(i as int).len() == 0);
    None
}

fn find_name_arg(v: &Vec<KeyArg>, pos: LineCol) -> (r: Option<TextRange>)
    ensures
        r == name_arg_at(v@, pos),
{
    let mut i: usize = 0;
    assert(v@.skip(0) =~= v@);
    while i < v.len()
        invariant
            i <= v@.len(),
            name_arg_at(v@, pos) == name_arg_at(v@.skip(i as int), pos),
        decreases v@.len() - i,
    {
        assert(v@.skip(i as int)[0] == v@[i as int]);
        assert(v@.skip(i as int).drop_first() =~= v@.skip(i + 1));
        if let KeyArg::KeyName { val, .. } = &v[i] {
            if range_holds(val, pos) {
                return Some(*val);
            }
        }
        i = i + 1;
    }
    assert(v@.skip(i as int).len() == 0);
    None
}

/// `r` is the location that `d` names.
pub open spec fn located(r: Option<Location>, d: Option<(Seq<char>, TextRange)>) -> bool {
    match (r, d) {
        (None, None) => true,
        (Some(l), Some((u, range))) => l.url@ == u && l.range == range,
        _ => false,
    }
}

fn extends_def(v: &Vec<RefAt>, pos: LineCol) -> (r: Option<Location>)
    ensures
        located(r, first_extends_def(v@, pos)),
{
    let mut i: usize = 0;
    assert(v@.skip(0) =~= v@);
    while i < v.len()
        invariant
            i <= v@.len(),
            first_extends_def(v@, pos) == first_extends_def(v@.skip(i as int), pos),
        decreases v@.len() - i,
    {
        assert(v@.skip(i as int)[0] == v@[i as int]);
        assert(v@.skip(i as int).drop_first() =~= v@.skip(i + 1));
        if range_holds(&v[i].range, pos) {
            let l = locate(&v[i].sym.def);
            if l.is_some() {
                return l;
            }
        }
        i = i + 1;
    }
    assert(v@.skip(i as int).len() == 0);
    None
}

fn paragraph_location(v: &Vec<KeyArg>, doc: &str, pos: LineCol) -> (r: Option<Location>)
    requires
        match first_fors(v@) {
            Some((_, names)) => names_resolved(names),
            None => true,
        },
    ensures
        located(r, paragraph_def(v@, doc@, pos)),
{
    let mut i: usize = 0;
    assert(v@.skip(0) =~= v@);
    while i < v.len()
        invariant
            i <= v@.len(),
            paragraph_def(v@, doc@, pos) == paragraph_def(v@.skip(i as int), doc@, pos),
            first_fors(v@) == first_fors(v@.skip(i as int)),
            match first_fors(v@) {
                Some((_, names)) => names_resolved(names),
                None => true,
            },
        decreases v@.len() - i,
    {
        assert(v@.skip(i as int)[0] == v@[i as int]);
        assert(v@.skip(i as int).drop_first() =~= v@.skip(i + 1));
        match &v[i] {
            KeyArg::Fors { val_range, symbols, .. } => {
                if !range_holds(val_range, pos) {
                    return None;
                }
                match find_name(symbols, pos) {
                    None => {
                        return None;
                    },
                    Some(j) => {
                        assert(symbols@[j as int].syms@.len() > 0);
                        return locate(&symbols[j].syms[0].def);
                    },
                }
            },
            KeyArg::KeyName { val, .. } => {
                if range_holds(val, pos) {
                    return at(doc, *val);
                }
            },
            _ => {},
        }
        i = i + 1;
    }
    assert(v@.skip(i as int).len() == 0);
    None
}

fn assigns_location(v: &Vec<InlineMorphAssign>, doc: &str, pos: LineCol) -> (r: Option<Location>)
    ensures
        located(r, assigns_def(v@, doc@, pos)),
{
    let mut i: usize = 0;
    assert(v@.skip(0) =~= v@);
    while i < v.len()
        invariant
            i <= v@.len(),
            assigns_def(v@, doc@, pos) == assigns_def(v@.skip(i as int), doc@, pos),
        decreases v@.len() - i,
    {
        assert(v@.skip(i as int)[0] == v@[i as int]);
        assert(v@.skip(i as int).drop_first() =~= v@.skip(i + 1));
        let x = &v[i];
        if range_holds(&x.symbol_range, pos) {
            return match &x.def {
                Some((path, _)) => match url_of_file(path.as_str()) {
                    Some(u) => Some(Location { url: u, range: x.symbol_range }),
                    None => None,
                },
                None => None,
            };
        }
        if let Some((_, AssignKind::Rename(_, r))) = &x.first {
            if range_holds(r, pos) {
                return at(doc, *r);
            }
        }
        if let Some((_, AssignKind::Rename(_, r))) = &x.second {
            if range_holds(r, pos) {
                return at(doc, *r);
            }
        }
        i = i + 1;
    }
    assert(v@.skip(i as int).len() == 0);
    None
}

fn module_location(
    file: &Option<String>,
    archive_range: &Option<TextRange>,
    path_range: TextRange,
    pos: LineCol,
) -> (r: Option<Location>)
    ensures
        located(r, module_def(*file, *archive_range, path_range, pos)),
{
    let range = match archive_range {
        Some(a) => TextRange { start: a.start, end: path_range.end },
        None => path_range,
    };
    if !range_holds(&range, pos) {
        return None;
    }
    match file {
        Some(p) => match url_of_file(p.as_str()) {
            Some(u) => Some(
                Location {
                    url: u,
                    range: TextRange {
                        start: LineCol { line: 0, col: 0 },
                        end: LineCol { line: 0, col: 0 },
                    },
                },
            ),
            None => None,
        },
        None => None,
    }
}

fn sym_location(d: &Def, range: TextRange, pos: LineCol) -> (r: Option<Location>)
    ensures
        located(r, first_sym_def(*d, range, pos)),
{
    if range_holds(&range, pos) {
        locate(d)
    } else {
        None
    }
}

fn decl_location(main: TextRange, args: &Vec<KeyArg>, doc: &str, pos: LineCol) -> (r: Option<Location>)
    ensures
        located(r, decl_def(main, args@, doc@, pos)),
{
    if range_holds(&main, pos) {
        return at(doc, main);
    }
    match find_name_arg(args, pos) {
        Some(r) => at(doc, r),
        None => None,
    }
}

/// Where the definition of what is at `pos` in the annotation `a` of the
/// document at `doc` is, if it can be found (see `definition_of`).
pub fn goto_definition(a: &Annot, doc: &str, pos: LineCol) -> (r: Option<Location>)
    requires
        refs_resolved(*a),
    ensures
        located(r, definition_of(*a, doc@, pos)),
{
    match a {
        Annot::Module { name_range, .. } => {
            if range_holds(name_range, pos) {
                at(doc, *name_range)
            } else {
                None
            }
        },
        Annot::MathStructure { extends, name_range, opts, .. } => {
            if range_holds(name_range, pos) {
                return at(doc, *name_range);
            }
            match find_id(opts, pos) {
                Some(r) => at(doc, r),
                None => extends_def(extends, pos),
            }
        },
        Annot::MorphismEnv { name_range, domain_range, domain_def, .. } => {
            if range_holds(name_range, pos) {
                at(doc, *name_range)
            } else if range_holds(domain_range, pos) {
                locate(domain_def)
            } else {
                None
            }
        },
        Annot::InlineMorphism { name_range, domain_range, domain_def, assignments, .. } => {
            if range_holds(name_range, pos) {
                at(doc, *name_range)
            } else if range_holds(domain_range, pos) {
                locate(domain_def)
            } else {
                assigns_location(assignments, doc, pos)
            }
        },
        Annot::Paragraph { parsed_args, .. } | Annot::InlineParagraph { parsed_args, .. } => {
            paragraph_location(parsed_args, doc, pos)
        },
        Annot::Symdecl { main_name_range, parsed_args, .. }
        | Annot::TextSymdecl { main_name_range, parsed_args, .. }
        | Annot::Symdef { main_name_range, parsed_args, .. }
        | Annot::Vardef { main_name_range, parsed_args, .. }
        | Annot::Varseq { main_name_range, parsed_args, .. } => {
            decl_location(*main_name_range, parsed_args, doc, pos)
        },
        Annot::RenameDecl { def, orig_range, name_range, macroname_range, .. } => {
            if let Some(n) = name_range {
                if range_holds(n, pos) {
                    return at(doc, *n);
                }
            }
            if range_holds(macroname_range, pos) {
                at(doc, *macroname_range)
            } else if range_holds(orig_range, pos) {
                locate(def)
            } else {
                None
            }
        },
        Annot::ImportModule { module_file, archive_range, path_range, .. }
        | Annot::UseModule { module_file, archive_range, path_range, .. }
        | Annot::SetMetatheory { module_file, archive_range, path_range, .. } => {
            module_location(module_file, archive_range, *path_range, pos)
        },
        Annot::ConservativeExt { ext_range, def, .. } => {
            if range_holds(ext_range, pos) {
                locate(def)
            } else {
                None
            }
        },
        Annot::SymName { syms, name_range, .. } | Annot::Symref { syms, name_range, .. }
        | Annot::Notation { syms, name_range, .. } | Annot::Symuse { syms, name_range, .. } => {
            sym_location(&syms[0].def, *name_range, pos)
        },
        Annot::Precondition { syms, symbol_range, .. } | Annot::Objective {
            syms,
            symbol_range,
            ..
        } => sym_location(&syms[0].def, *symbol_range, pos),
        Annot::Definiens { syms, name_range, .. } => match name_range {
            Some(r) => sym_location(&syms[0].def, *r, pos),
            None => None,
        },
        Annot::SemanticMacro { def, token_range, .. } => sym_location(def, *token_range, pos),
        Annot::UseStructure { def, structure_range, .. } => sym_location(def, *structure_range, pos),
        Annot::Assign { def, orig_range, .. } => sym_location(def, *orig_range, pos),
        Annot::VariableMacro { orig, full_range, .. } => {
            if range_holds(full_range, pos) {
                at(doc, *orig)
            } else {
                None
            }
        },
        _ => None,
    }
}

/// Where go-to-definition leads from an annotation that refers to a symbol
/// or a module by a name: when the name holds the cursor, to the
/// definition of what it refers to (the first symbol, where the name is
/// ambiguous), in the URL of the definition's file, if it has one;
/// nowhere when the name does not hold the cursor. Names a declaration
/// gives lead to themselves, in the document; a variable macro leads to its
/// variable's declaration.
pub proof fn lemma_definition_of_names(a: Annot, doc: Seq<char>, pos: LineCol, path: String, r: TextRange, u: Seq<char>)
    ensures
        (a matches Annot::SemanticMacro { def, token_range, .. } && def == Some((path, r)) && file_url(path@)
            == Some(u) && holds(token_range, pos)) ==> definition_of(a, doc, pos) == Some((u, r)),
        (a matches Annot::UseStructure { def, structure_range, .. } && def == Some((path, r)) && file_url(
            path@,
        ) == Some(u) && holds(structure_range, pos)) ==> definition_of(a, doc, pos) == Some((u, r)),
        (a matches Annot::Assign { def, orig_range, .. } && def == Some((path, r)) && file_url(path@)
            == Some(u) && holds(orig_range, pos)) ==> definition_of(a, doc, pos) == Some((u, r)),
        (a matches Annot::ConservativeExt { def, ext_range, .. } && def == Some((path, r)) && file_url(
            path@,
        ) == Some(u) && holds(ext_range, pos)) ==> definition_of(a, doc, pos) == Some((u, r)),
        (a matches Annot::SymName { syms, name_range, .. } && syms@[0].def == Some((path, r))
            && file_url(path@) == Some(u) && holds(name_range, pos)) ==> definition_of(a, doc, pos)
            == Some((u, r)),
        (a matches Annot::Symref { syms, name_range, .. } && syms@[0].def == Some((path, r))
            && file_url(path@) == Some(u) && holds(name_range, pos)) ==> definition_of(a, doc, pos)
            == Some((u, r)),
        (a matches Annot::Notation { syms, name_range, .. } && syms@[0].def == Some((path, r))
            && file_url(path@) == Some(u) && holds(name_range, pos)) ==> definition_of(a, doc, pos)
            == Some((u, r)),
        (a matches Annot::Symuse { syms, name_range, .. } && syms@[0].def == Some((path, r))
            && file_url(path@) == Some(u) && holds(name_range, pos)) ==> definition_of(a, doc, pos)
            == Some((u, r)),
        (a matches Annot::Precondition { syms, symbol_range, .. } && syms@[0].def == Some((path, r))
            && file_url(path@) == Some(u) && holds(symbol_range, pos)) ==> definition_of(a, doc, pos)
            == Some((u, r)),
        (a matches Annot::Objective { syms, symbol_range, .. } && syms@[0].def == Some((path, r))
            && file_url(path@) == Some(u) && holds(symbol_range, pos)) ==> definition_of(a, doc, pos)
            == Some((u, r)),
        (a matches Annot::Definiens { syms, name_range: Some(nr), .. } && syms@[0].def == Some((path, r))
            && file_url(path@) == Some(u) && holds(nr, pos)) ==> definition_of(a, doc, pos) == Some((u, r)),
        (a matches Annot::RenameDecl { def, orig_range, name_range: None, macroname_range, .. } && def
            == Some((path, r)) && file_url(path@) == Some(u) && !holds(macroname_range, pos) && holds(
            orig_range,
            pos,
        )) ==> definition_of(a, doc, pos) == Some((u, r)),
        (a matches Annot::MorphismEnv { name_range, domain_range, domain_def, .. } && domain_def == Some(
            (path, r),
        ) && file_url(path@) == Some(u) && !holds(name_range, pos) && holds(domain_range, pos))
            ==> definition_of(a, doc, pos) == Some((u, r)),
        (a matches Annot::InlineMorphism { name_range, domain_range, domain_def, .. } && domain_def == Some(
            (path, r),
        ) && file_url(path@) == Some(u) && !holds(name_range, pos) && holds(domain_range, pos))
            ==> definition_of(a, doc, pos) == Some((u, r)),
        (a matches Annot::SemanticMacro { token_range, .. } && !holds(token_range, pos)) ==> definition_of(
            a,
            doc,
            pos,
        ) is None,
        (a matches Annot::SymName { name_range, .. } && !holds(name_range, pos)) ==> definition_of(
            a,
            doc,
            pos,
        ) is None,
        (a matches Annot::Symuse { name_range, .. } && !holds(name_range, pos)) ==> definition_of(
            a,
            doc,
            pos,
        ) is None,
        (a matches Annot::Module { name_range, .. } && holds(name_range, pos)) ==> definition_of(a, doc, pos)
            == Some((doc, a->Module_name_range)),
        (a matches Annot::Symdecl { main_name_range, .. } && holds(main_name_range, pos)) ==> definition_of(
            a,
            doc,
            pos,
        ) == Some((doc, a->Symdecl_main_name_range)),
        (a matches Annot::Symdef { main_name_range, .. } && holds(main_name_range, pos)) ==> definition_of(
            a,
            doc,
            pos,
        ) == Some((doc, a->Symdef_main_name_range)),
        (a matches Annot::Vardef { main_name_range, .. } && holds(main_name_range, pos)) ==> definition_of(
            a,
            doc,
            pos,
        ) == Some((doc, a->Vardef_main_name_range)),
        (a matches Annot::VariableMacro { orig, full_range, .. } && holds(full_range, pos))
            ==> definition_of(a, doc, pos) == Some((doc, a->VariableMacro_orig)),
        (a matches Annot::ImportModule { module_file, archive_range: None, path_range, .. } && module_file
            == Some(path) && file_url(path@) == Some(u) && holds(path_range, pos)) ==> definition_of(
            a,
            doc,
            pos,
        ) == Some((u, doc_start())),
        (a matches Annot::UseModule { module_file, archive_range: None, path_range, .. } && module_file
            == Some(path) && file_url(path@) == Some(u) && holds(path_range, pos)) ==> definition_of(
            a,
            doc,
            pos,
        ) == Some((u, doc_start())),
{
}

} // verus!
