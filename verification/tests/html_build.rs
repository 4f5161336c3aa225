use flams::{lsp_severity, build_start, font_diagnostics, rustex_error, BuildStart, FileTrace, FontReport, Level};

#[test]
fn a_build_starts_only_for_an_outdated_document_in_an_archive() {
    assert!(build_start(true, true, true, false, true) == BuildStart::Build);
    assert!(build_start(true, true, true, true, false) == BuildStart::UpToDate);
    assert!(build_start(true, true, true, false, false) == BuildStart::Nothing);
    assert!(build_start(false, true, true, true, true) == BuildStart::Nothing);
    assert!(build_start(true, false, true, false, true) == BuildStart::Nothing);
    assert!(build_start(true, true, false, true, true) == BuildStart::Nothing);
}

#[test]
fn fonts_without_a_web_font_are_warned_about() {
    let fonts = vec![
        FontReport { name: "cmr10".to_string(), has_web: true, missing: vec![("g1".to_string(), "x".to_string())] },
        FontReport { name: "odd".to_string(), has_web: false, missing: vec![("g7".to_string(), "ä".to_string())] },
    ];
    let d = font_diagnostics(&fonts);
    let msgs: Vec<&str> = d.iter().map(|x| x.message.as_str()).collect();
    assert_eq!(msgs, vec!["Unknown web font for odd", "unknown unicode character for glyph ä (g7) in font odd"]);
    assert!(d.iter().all(|x| x.level == Level::Warning && x.range.end.line == 0 && x.range.end.col == 0));
    assert!(font_diagnostics(&vec![]).is_empty());
}

#[test]
fn a_rustex_error_is_shown_at_the_last_trace_in_the_document() {
    let t = |file: &str, line: u32, col: u32, open: bool| FileTrace { file: file.to_string(), line, col, open };
    let traces = vec![t("/a.tex", 3, 4, false), t("/d.tex", 5, 6, true), t("/b.tex", 1, 2, true), t("/d.tex", 8, 9, true)];
    let (here, others) = rustex_error("boom", "/d.tex", &traces);
    assert!(here.level == Level::Error);
    assert_eq!(here.message, "RusTeX Error: boom");
    assert_eq!((here.range.start.line, here.range.start.col, here.range.end.line, here.range.end.col), (8, 0, 8, 9));
    assert_eq!(others.len(), 1);
    assert_eq!(others[0].0, "/b.tex");
    assert_eq!(others[0].1.message, "RusTeX Error: boom");
    assert_eq!((others[0].1.range.start.col, others[0].1.range.end.col), (0, 2));
    let (none, _) = rustex_error("e", "/z.tex", &traces);
    assert_eq!((none.range.start.line, none.range.end.col), (0, 0));
}

#[test]
fn levels_are_sent_as_lsp_severities() {
    assert_eq!(lsp_severity(Level::Error), 1);
    assert_eq!(lsp_severity(Level::Warning), 2);
    assert_eq!(lsp_severity(Level::Info), 3);
    assert_eq!(lsp_severity(Level::Hint), 4);
}
