use crate::annotations::{LineCol, TextRange};
use crate::definition::doc_start;
use crate::render::put;
use vstd::string::*;
use vstd::prelude::*;

verus! {

/// How serious a diagnostic is.
#[derive(Clone, Copy, PartialEq, Eq, Structural)]
pub enum Level {
    Error,
    Info,
    Warning,
    Hint,
}

/// The severity an editor is sent for a level: error 1, warning 2,
/// information 3, hint 4.
pub open spec fn severity_of(l: Level) -> u32 {
    match l {
        Level::Error => 1,
        Level::Warning => 2,
        Level::Info => 3,
        Level::Hint => 4,
    }
}

/// The severity of a diagnostic as the editor receives it (see
/// `severity_of`).
pub fn lsp_severity(l: Level) -> (r: u32)
    ensures
        r == severity_of(l),
{
    match l {
        Level::Error => 1,
        Level::Warning => 2,
        Level::Info => 3,
        Level::Hint => 4,
    }
}

/// A diagnostic of a document: its level, message and range.
pub struct Diagnostic {
    pub level: Level,
    pub message: String,
    pub range: TextRange,
}

/// What to do when a document's HTML is asked for.
#[derive(Clone, Copy, PartialEq, Eq, Structural)]
pub enum BuildStart {
    /// Nothing can be built: the document is not an open sTeX file with a
    /// URI and a place in an archive.
    Nothing,
    /// The HTML is up to date: answer with the document's URI.
    UpToDate,
    /// Run RusTeX on the document.
    Build,
}

/// The first decision of a build, from what the server knows of the
/// document: whether it is an open sTeX document, whether it is a file,
/// whether it has a URI, whether its HTML is up to date, whether it lies in
/// an archive. The checks come in this order.
pub open spec fn build_start_of(
    is_doc: bool,
    is_file: bool,
    has_uri: bool,
    up_to_date: bool,
    in_archive: bool,
) -> BuildStart {
    if !is_doc || !is_file || !has_uri {
        BuildStart::Nothing
    } else if up_to_date {
        BuildStart::UpToDate
    } else if !in_archive {
        BuildStart::Nothing
    } else {
        BuildStart::Build
    }
}

/// The first decision of a build (see `build_start_of`).
pub fn build_start(is_doc: bool, is_file: bool, has_uri: bool, up_to_date: bool, in_archive: bool) -> (r:
    BuildStart)
    ensures
        r == build_start_of(is_doc, is_file, has_uri, up_to_date, in_archive),
{
    if !is_doc || !is_file || !has_uri {
        BuildStart::Nothing
    } else if up_to_date {
        BuildStart::UpToDate
    } else if !in_archive {
        BuildStart::Nothing
    } else {
        BuildStart::Build
    }
}

/// What RusTeX reports of a font it used: its name, whether a web font is
/// known for it, and the glyphs it found no character for, each as the
/// glyph and the character it stands for.
pub struct FontReport {
    pub name: String,
    pub has_web: bool,
    pub missing: Vec<(String, String)>,
}

/// The warning on a glyph without a character.
pub open spec fn glyph_message(font: Seq<char>, glyph: Seq<char>, ch: Seq<char>) -> Seq<char> {
    "unknown unicode character for glyph "@ + ch + " ("@ + glyph + ") in font "@ + font
}

/// The warnings on a font: none when a web font is known for it; else one
/// on the font, then one per glyph without a character.
pub open spec fn font_messages(f: FontReport) -> Seq<Seq<char>> {
    if f.has_web {
        Seq::empty()
    } else {
        seq!["Unknown web font for "@ + f.name@] + f.missing@.map_values(
            |m: (String, String)| glyph_message(f.name@, m.0@, m.1@),
        )
    }
}

/// The warnings on the fonts, one font after the other.
pub open spec fn fonts_messages(s: Seq<FontReport>) -> Seq<Seq<char>>
    decreases s.len(),
{
    if s.len() == 0 {
        Seq::empty()
    } else {
        fonts_messages(s.drop_last()) + font_messages(s.last())
    }
}

/// `r` are warnings with the messages `msgs`, in order, at the start of
/// the document.
pub open spec fn warnings(r: Seq<Diagnostic>, msgs: Seq<Seq<char>>) -> bool {
    &&& r.len() == msgs.len()
    &&& forall|i: int|
        0 <= i < r.len() ==> (#[trigger] r[i]).level == Level::Warning && r[i].message@ == msgs[i]
            && r[i].range == doc_start()
}

fn warning(message: String) -> (r: Diagnostic)
    ensures
        r.level == Level::Warning,
        r.message == message,
        r.range == doc_start(),
{
    Diagnostic {
        level: Level::Warning,
        message,
        range: TextRange { start: LineCol { line: 0, col: 0 }, end: LineCol { line: 0, col: 0 } },
    }
}

/// The warnings a build gives on the fonts RusTeX used (see
/// `font_messages`).
pub fn font_diagnostics(fonts: &Vec<FontReport>) -> (r: Vec<Diagnostic>)
    ensures
        warnings(r@, fonts_messages(fonts@)),
{
    proof {
        reveal_strlit("Unknown web font for ");
        reveal_strlit("unknown unicode character for glyph ");
        reveal_strlit(" (");
        reveal_strlit(") in font ");
    }
    let mut out: Vec<Diagnostic> = Vec::new();
    let mut i: usize = 0;
    while i < fonts.len()
        invariant
            i <= fonts@.len(),
            warnings(out@, fonts_messages(fonts@.take(i as int))),
        decreases fonts@.len() - i,
    {
        let f = &fonts[i];
        let ghost before = fonts_messages(fonts@.take(i as int));
        assert(fonts@.take(i + 1).drop_last() =~= fonts@.take(i as int));
        assert(fonts@.take(i + 1).last() == fonts@[i as int]);
        if !f.has_web {
            let mut m = String::new();
            put(&mut m, "Unknown web font for ");
            put(&mut m, f.name.as_str());
            out.push(warning(m));
            let ghost head = before.push("Unknown web font for "@ + f.name@);
            assert(warnings(out@, head));
            let mut j: usize = 0;
            while j < f.missing.len()
                invariant
                    j <= f.missing@.len(),
                    f == &fonts@[i as int],
                    warnings(out@, head + f.missing@.take(j as int).map_values(
                        |m: (String, String)| glyph_message(f.name@, m.0@, m.1@),
                    )),
                decreases f.missing@.len() - j,
            {
                let (glyph, ch) = &f.missing[j];
                let mut m = String::new();
                put(&mut m, "unknown unicode character for glyph ");
                put(&mut m, ch.as_str());
                put(&mut m, " (");
                put(&mut m, glyph.as_str());
                put(&mut m, ") in font ");
                put(&mut m, f.name.as_str());
                let ghost prev = out@;
                out.push(warning(m));
                proof {
                    let g = |m: (String, String)| glyph_message(f.name@, m.0@, m.1@);
                    assert(f.missing@.take(j + 1).map_values(g) =~= f.missing@.take(j as int).map_values(
                        g,
                    ).push(glyph_message(f.name@, glyph@, ch@)));
                    assert(head + f.missing@.take(j + 1).map_values(g) =~= (head + f.missing@.take(
                        j as int,
                    ).map_values(g)).push(glyph_message(f.name@, glyph@, ch@)));
                }
                j = j + 1;
            }
            assert(f.missing@.take(f.missing@.len() as int) =~= f.missing@);
            assert(head + f.missing@.map_values(
                |m: (String, String)| glyph_message(f.name@, m.0@, m.1@),
            ) =~= fonts_messages(fonts@.take(i + 1)));
        } else {
            assert(fonts_messages(fonts@.take(i + 1)) =~= before);
        }
        i = i + 1;
    }
    assert(fonts@.take(fonts@.len() as int) =~= fonts@);
    out
}

/// A place RusTeX's error was raised from: a file, a line and a column,
/// and whether the server has that file open.
pub struct FileTrace {
    pub file: String,
    pub line: u32,
    pub col: u32,
    pub open: bool,
}

/// The part of the trace's line up to its column.
pub open spec fn trace_range(t: FileTrace) -> TextRange {
    TextRange { start: LineCol { line: t.line, col: 0 }, end: LineCol { line: t.line, col: t.col } }
}

/// Where the error shows in the built document `doc`: at its last trace in
/// that file, else at the document's start.
pub open spec fn error_range(traces: Seq<FileTrace>, doc: Seq<char>) -> TextRange
    decreases traces.len(),
{
    if traces.len() == 0 {
        doc_start()
    } else if traces.last().file@ == doc {
        trace_range(traces.last())
    } else {
        error_range(traces.drop_last(), doc)
    }
}

/// The other open files the error passed through, each with the range it
/// shows at there, in the order of the traces.
pub open spec fn error_elsewhere(traces: Seq<FileTrace>, doc: Seq<char>) -> Seq<(Seq<char>, TextRange)>
    decreases traces.len(),
{
    if traces.len() == 0 {
        Seq::empty()
    } else {
        error_elsewhere(traces.drop_last(), doc) + if traces.last().file@ != doc
            && traces.last().open {
            seq![(traces.last().file@, trace_range(traces.last()))]
        } else {
            Seq::empty()
        }
    }
}

/// The message of a RusTeX error.
pub open spec fn rustex_message(e: Seq<char>) -> Seq<char> {
    "RusTeX Error: "@ + e
}

/// `a` and `b` hold the same text.
fn same_text(a: &str, b: &str) -> (r: bool)
    ensures
        r == (a@ == b@),
{
    let n = a.unicode_len();
    if n != b.unicode_len() {
        return false;
    }
    let mut i: usize = 0;
    while i < n
        invariant
            n == a@.len(),
            n == b@.len(),
            i <= n,
            forall|k: int| 0 <= k < i ==> a@[k] == b@[k],
        decreases n - i,
    {
        if a.get_char(i) != b.get_char(i) {
            return false;
        }
        i = i + 1;
    }
    assert(a@ =~= b@);
    true
}

/// The diagnostics of a RusTeX error `e` in a build of the file `doc`: the
/// one of the document itself (see `error_range`), and those of the other
/// open files it passed through (see `error_elsewhere`), each an error with
/// the message `rustex_message(e)`.
pub fn rustex_error(e: &str, doc: &str, traces: &Vec<FileTrace>) -> (r: (Diagnostic, Vec<(String, Diagnostic)>))
    ensures
        r.0.level == Level::Error,
        r.0.message@ == rustex_message(e@),
        r.0.range == error_range(traces@, doc@),
        r.1@.len() == error_elsewhere(traces@, doc@).len(),
        forall|i: int|
            0 <= i < r.1@.len() ==> {
                let (f, d) = #[trigger] r.1@[i];
                &&& f@ == error_elsewhere(traces@, doc@)[i].0
                &&& d.level == Level::Error
                &&& d.message@ == rustex_message(e@)
                &&& d.range == error_elsewhere(traces@, doc@)[i].1
            },
{
    proof {
        reveal_strlit("RusTeX Error: ");
    }
    let mut here = TextRange { start: LineCol { line: 0, col: 0 }, end: LineCol { line: 0, col: 0 } };
    let mut others: Vec<(String, Diagnostic)> = Vec::new();
    let mut i: usize = 0;
    while i < traces.len()
        invariant
            i <= traces@.len(),
            here == error_range(traces@.take(i as int), doc@),
            others@.len() == error_elsewhere(traces@.take(i as int), doc@).len(),
            forall|k: int|
                0 <= k < others@.len() ==> {
                    let (f, d) = #[trigger] others@[k];
                    &&& f@ == error_elsewhere(traces@.take(i as int), doc@)[k].0
                    &&& d.level == Level::Error
                    &&& d.message@ == rustex_message(e@)
                    &&& d.range == error_elsewhere(traces@.take(i as int), doc@)[k].1
                },
        decreases traces@.len() - i,
    {
        let t = &traces[i];
        proof {
            assert(traces@.take(i + 1).drop_last() =~= traces@.take(i as int));
            assert(traces@.take(i + 1).last() == traces@[i as int]);
        }
        let range = TextRange { start: LineCol { line: t.line, col: 0 }, end: LineCol { line: t.line, col: t.col } };
        let ghost prev = error_elsewhere(traces@.take(i as int), doc@);
        if same_text(t.file.as_str(), doc) {
            here = range;
            assert(error_elsewhere(traces@.take(i + 1), doc@) =~= prev);
        } else if t.open {
            let mut m = String::new();
            put(&mut m, "RusTeX Error: ");
            put(&mut m, e);
            others.push((t.file.clone(), Diagnostic { level: Level::Error, message: m, range }));
            assert(error_elsewhere(traces@.take(i + 1), doc@) =~= prev.push((t.file@, range)));
        } else {
            assert(error_elsewhere(traces@.take(i + 1), doc@) =~= prev);
        }
        i = i + 1;
    }
    assert(traces@.take(traces@.len() as int) =~= traces@);
    let mut m = String::new();
    put(&mut m, "RusTeX Error: ");
    put(&mut m, e);
    (Diagnostic { level: Level::Error, message: m, range: here }, others)
}

} // verus!
