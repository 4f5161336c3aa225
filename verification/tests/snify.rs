use flams::{snify_arg_count, snify_edits, BaseURI, LineCol, SymbolURI, TextRange};

fn at(line: u32, col: u32) -> LineCol {
    LineCol { line, col }
}

fn symbol(archive: &str, path: &str, module: &str, name: &str) -> SymbolURI {
    let a = BaseURI::new_unchecked("https://mathhub.info").archive_named(archive);
    let p = a.path_named(path).ok().unwrap();
    p.module_named(module).ok().unwrap().symbol_named(name).ok().unwrap()
}

fn shown(v: Vec<flams::TextEdit>) -> Vec<(u32, u32, u32, u32, String)> {
    v.into_iter().map(|e| (e.range.start.line, e.range.start.col, e.range.end.line, e.range.end.col, e.new_text)).collect()
}

#[test]
fn annotate_takes_four_arguments() {
    assert!(snify_arg_count(4).is_ok());
    assert_eq!(snify_arg_count(0), Err("invalid number of arguments for snify/annotate; expected: 4; got: 0".to_string()));
    assert_eq!(snify_arg_count(7), Err("invalid number of arguments for snify/annotate; expected: 4; got: 7".to_string()));
}

#[test]
fn annotating_wraps_the_text_and_imports_the_module() {
    let u = symbol("smglom/sets", "mod", "set", "member");
    let range = TextRange { start: at(4, 2), end: at(4, 8) };
    assert_eq!(
        shown(snify_edits(&Some(u), true, range, at(1, 16), "member", at(9, 0), false)),
        vec![
            (1, 16, 1, 16, "\n  \\usemodule[smglom/sets]{mod?set}".to_string()),
            (4, 2, 4, 2, "\\sr{member}{".to_string()),
            (4, 8, 4, 8, "}".to_string()),
        ]
    );
    let v = symbol("smglom/sets", "mod", "set", "member");
    assert_eq!(shown(snify_edits(&Some(v), false, range, at(1, 16), "member", at(9, 0), false)).len(), 2);
}

#[test]
fn ignoring_puts_the_text_on_the_skip_list() {
    let range = TextRange { start: at(4, 2), end: at(4, 8) };
    assert_eq!(
        shown(snify_edits(&None, false, range, at(1, 16), "member", at(9, 0), false)),
        vec![(9, 0, 9, 0, "\n% srskip l:member".to_string())]
    );
    assert_eq!(
        shown(snify_edits(&None, false, range, at(1, 16), "member", at(0, 9), true)),
        vec![(0, 9, 0, 9, "l:member, ".to_string())]
    );
}
