use flams::{archive_file, links, Annot, DocLink, LineCol, TextRange};

fn r(line: u32, a: u32, b: u32) -> TextRange {
    TextRange { start: LineCol { line, col: a }, end: LineCol { line, col: b } }
}

fn shown(v: Vec<DocLink>) -> Vec<(u32, u32, u32, String)> {
    v.into_iter().map(|l| (l.range.start.line, l.range.start.col, l.range.end.col, l.target)).collect()
}

#[test]
fn inputs_link_what_follows_their_macro() {
    let i = Annot::Inputref { archive: None, filepath: "a.tex".to_string(), full_range: r(2, 0, 20), token_range: r(2, 0, 9) };
    assert_eq!(archive_file(&i, Some("top")), Some(("top".to_string(), "a.tex".to_string())));
    assert_eq!(archive_file(&i, None), None);
    assert_eq!(shown(links(&i, &Some("https://x/a".to_string()))), vec![(2, 9, 20, "https://x/a".to_string())]);
    assert!(links(&i, &None).is_empty());
    let g = Annot::MHGraphics { archive: Some("own".to_string()), filepath: "p.png".to_string(), filepath_range: r(4, 13, 18), full_range: r(4, 0, 19), token_range: r(4, 0, 12) };
    assert_eq!(archive_file(&g, Some("top")), Some(("own".to_string(), "p.png".to_string())));
    assert_eq!(shown(links(&g, &Some("u".to_string()))), vec![(4, 13, 18, "u".to_string())]);
}

#[test]
fn label_references_link_to_their_files() {
    let s = |target: &str, in_doc: Option<&str>| Annot::SRef {
        token_range: r(1, 0, 4),
        label_range: r(1, 5, 9),
        target_path: target.to_string(),
        in_doc: in_doc.map(|d| d.to_string()),
        file_arg: Some(r(1, 11, 15)),
        in_file_arg: Some(r(1, 20, 24)),
        opt_args: vec![],
        in_opt_args: vec![],
    };
    assert_eq!(
        shown(links(&s("/t.tex", Some("/d.tex")), &None)),
        vec![(1, 11, 15, "file:///t.tex".to_string()), (1, 5, 9, "file:///t.tex".to_string()), (1, 20, 24, "file:///d.tex".to_string())]
    );
    assert_eq!(shown(links(&s("rel.tex", None), &None)), vec![]);
}
