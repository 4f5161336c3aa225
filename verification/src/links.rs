use crate::annotations::{Annot, TextRange};
use crate::definition::{file_url, url_of_file};
use vstd::prelude::*;

verus! {

/// A link in a document: the range it covers and the URL it leads to.
pub struct DocLink {
    pub range: TextRange,
    pub target: String,
}

/// A link as plain values.
pub open spec fn link_view(l: DocLink) -> (TextRange, Seq<char>) {
    (l.range, l.target@)
}

/// Links as plain values, in order.
pub open spec fn links_view(v: Seq<DocLink>) -> Seq<(TextRange, Seq<char>)> {
    v.map_values(|l: DocLink| link_view(l))
}

/// The archive and file in it that a link of the annotation `a` leads to,
/// for a file named by its place in an archive: its own archive, or else
/// the archive of the document it is in (`top_archive`).
pub open spec fn archive_file_of(a: Annot, top_archive: Option<Seq<char>>) -> Option<(Seq<char>, Seq<char>)> {
    let named = match a {
        Annot::IncludeProblem { archive, filepath, .. } => Some((archive, filepath)),
        Annot::MHGraphics { archive, filepath, .. } => Some((archive, filepath)),
        Annot::Inputref { archive, filepath, .. } => Some((archive, filepath)),
        Annot::MHInput { archive, filepath, .. } => Some((archive, filepath)),
        _ => None,
    };
    match named {
        Some((archive, filepath)) => match archive {
            Some(x) => Some((x@, filepath@)),
            None => match top_archive {
                Some(t) => Some((t, filepath@)),
                None => None,
            },
        },
        None => None,
    }
}

/// The archive and file that a link of `a` leads to (see
/// `archive_file_of`).
pub fn archive_file(a: &Annot, top_archive: Option<&str>) -> (r: Option<(String, String)>)
    ensures
        match (r, archive_file_of(*a, match top_archive {
            Some(t) => Some(t@),
            None => None,
        })) {
            (None, None) => true,
            (Some((x, f)), Some((sx, sf))) => x@ == sx && f@ == sf,
            _ => false,
        },
{
    let named = match a {
        Annot::IncludeProblem { archive, filepath, .. } | Annot::MHGraphics { archive, filepath, .. }
        | Annot::Inputref { archive, filepath, .. } | Annot::MHInput { archive, filepath, .. } => Some(
            (archive, filepath),
        ),
        _ => None,
    };
    match named {
        Some((archive, filepath)) => match archive {
            Some(x) => Some((x.clone(), filepath.clone())),
            None => match top_archive {
                Some(t) => Some((t.to_string(), filepath.clone())),
                None => None,
            },
        },
        None => None,
    }
}

/// The links of the annotation `a`. `resolved` is the URL found for the
/// archive and file that `archive_file` names, where one was found. An
/// included problem or an image links its file name; an input links what
/// follows its macro; a label reference links its `file=` argument and its
/// label to the label's file, and its inner `file=` argument to the file of
/// the document it names.
pub open spec fn links_of(a: Annot, resolved: Option<Seq<char>>) -> Seq<(TextRange, Seq<char>)> {
    match a {
        Annot::IncludeProblem { filepath_range, .. } => match resolved {
            Some(u) => seq![(filepath_range, u)],
            None => Seq::empty(),
        },
        Annot::MHGraphics { filepath_range, .. } => match resolved {
            Some(u) => seq![(filepath_range, u)],
            None => Seq::empty(),
        },
        Annot::Inputref { token_range, full_range, .. } => match resolved {
            Some(u) => seq![(TextRange { start: token_range.end, end: full_range.end }, u)],
            None => Seq::empty(),
        },
        Annot::MHInput { token_range, full_range, .. } => match resolved {
            Some(u) => seq![(TextRange { start: token_range.end, end: full_range.end }, u)],
            None => Seq::empty(),
        },
        Annot::SRef { label_range, target_path, in_doc, file_arg, in_file_arg, .. } => (match file_url(
            target_path@,
        ) {
            Some(u) => (match file_arg {
                Some(r) => seq![(r, u)],
                None => Seq::empty(),
            }) + seq![(label_range, u)],
            None => Seq::empty(),
        }) + match (in_doc, in_file_arg) {
            (Some(id), Some(r)) => match file_url(id@) {
                Some(u) => seq![(r, u)],
                None => Seq::empty(),
            },
            _ => Seq::empty(),
        },
        _ => Seq::empty(),
    }
}

fn push_link(out: &mut Vec<DocLink>, range: TextRange, target: String)
    ensures
        links_view(final(out)@) == links_view(old(out)@).push((range, target@)),
{
    let ghost before = out@;
    out.push(DocLink { range, target });
    assert(links_view(out@) =~= links_view(before).push((range, target@)));
}

/// The links of the annotation `a` (see `links_of`).
pub fn links(a: &Annot, resolved: &Option<String>) -> (r: Vec<DocLink>)
    ensures
        links_view(r@) == links_of(*a, match *resolved {
            Some(u) => Some(u@),
            None => None,
        }),
{
    let mut out: Vec<DocLink> = Vec::new();
    let ghost res = match resolved {
        Some(u) => Some(u@),
        None => None,
    };
    assert(links_view(out@) =~= Seq::<(TextRange, Seq<char>)>::empty());
    match a {
        Annot::IncludeProblem { filepath_range, .. } | Annot::MHGraphics { filepath_range, .. } => {
            if let Some(u) = resolved {
                push_link(&mut out, *filepath_range, u.clone());
            }
        },
        Annot::Inputref { token_range, full_range, .. } | Annot::MHInput { token_range, full_range, .. } => {
            if let Some(u) = resolved {
                push_link(&mut out, TextRange { start: token_range.end, end: full_range.end }, u.clone());
            }
        },
        Annot::SRef { label_range, target_path, in_doc, file_arg, in_file_arg, .. } => {
            if let Some(u) = url_of_file(target_path.as_str()) {
                if let Some(r) = file_arg {
                    push_link(&mut out, *r, u.clone());
                }
                push_link(&mut out, *label_range, u);
            }
            if let (Some(id), Some(r)) = (in_doc, in_file_arg) {
                if let Some(u) = url_of_file(id.as_str()) {
                    push_link(&mut out, *r, u);
                }
            }
        },
        _ => {},
    }
    assert(links_view(out@) =~= links_of(*a, res));
    out
}

/// Where the links of an annotation lead: an input links the text after its
/// macro, an included problem or an image its file name, each to the URL
/// found for its file, and nothing where none was found; a label reference
/// links its label (and its `file=` argument) to the label's file, and its
/// inner `file=` argument to the file of the document it names.
pub proof fn lemma_links_lead_to_files(a: Annot, resolved: Option<Seq<char>>, u: Seq<char>, v: Seq<char>)
    ensures
        (a matches Annot::Inputref { token_range, full_range, .. } && resolved == Some(u)) ==> links_of(
            a,
            resolved,
        ) == seq![(TextRange { start: a->Inputref_token_range.end, end: a->Inputref_full_range.end }, u)],
        (a matches Annot::MHInput { token_range, full_range, .. } && resolved == Some(u)) ==> links_of(
            a,
            resolved,
        ) == seq![(TextRange { start: a->MHInput_token_range.end, end: a->MHInput_full_range.end }, u)],
        (a matches Annot::IncludeProblem { filepath_range, .. } && resolved == Some(u)) ==> links_of(
            a,
            resolved,
        ) == seq![(a->IncludeProblem_filepath_range, u)],
        (a matches Annot::MHGraphics { filepath_range, .. } && resolved == Some(u)) ==> links_of(a, resolved)
            == seq![(a->MHGraphics_filepath_range, u)],
        ((a is Inputref || a is MHInput || a is IncludeProblem || a is MHGraphics) && resolved is None)
            ==> links_of(a, resolved).len() == 0,
        (a matches Annot::SRef { target_path, in_doc, file_arg: None, in_file_arg: None, .. } && file_url(
            target_path@,
        ) == Some(u)) ==> links_of(a, resolved) == seq![(a->SRef_label_range, u)],
        (a matches Annot::SRef { target_path, in_doc: Some(d), file_arg: Some(fr), in_file_arg: Some(ir), .. }
            && file_url(target_path@) == Some(u) && file_url(d@) == Some(v)) ==> links_of(a, resolved)
            == seq![
            (a->SRef_file_arg->Some_0, u),
            (a->SRef_label_range, u),
            (a->SRef_in_file_arg->Some_0, v),
        ],
        (a is Module || a is Symref || a is SymName || a is Svar || a is Paragraph) ==> links_of(a, resolved).len()
            == 0,
{
    match a {
        Annot::SRef { .. } => {
            assert(forall|x: Seq<(TextRange, Seq<char>)>| x + Seq::<(TextRange, Seq<char>)>::empty() =~= x);
            assert(forall|x: Seq<(TextRange, Seq<char>)>| Seq::<(TextRange, Seq<char>)>::empty() + x =~= x);
        },
        _ => {},
    }
}

} // verus!
