use flams::{
    hierarchy_calls, Annot, BaseURI, CallKind, HierarchyTarget, IncomingCall, LineCol, RefAt, SymRef, SymbolURI, TextRange,
};

fn r(line: u32, a: u32, b: u32) -> TextRange {
    TextRange { start: LineCol { line, col: a }, end: LineCol { line, col: b } }
}

fn symbol(archive: &str, path: &str, module: &str, name: &str) -> SymbolURI {
    let a = BaseURI::new_unchecked("https://mathhub.info").archive_named(archive);
    let p = a.path_named(path).ok().unwrap();
    p.module_named(module).ok().unwrap().symbol_named(name).ok().unwrap()
}

fn import(module: &str, name: &str, file: Option<&str>, line: u32) -> Annot {
    Annot::ImportModule {
        module: module.to_string(),
        module_name: name.to_string(),
        module_file: file.map(|f| f.to_string()),
        archive_range: None,
        path_range: r(line, 14, 20),
        full_range: r(line, 0, 21),
        token_range: r(line, 0, 13),
    }
}

fn usemodule(module: &str, name: &str, file: Option<&str>, line: u32) -> Annot {
    Annot::UseModule {
        module: module.to_string(),
        module_name: name.to_string(),
        module_file: file.map(|f| f.to_string()),
        archive_range: None,
        path_range: r(line, 11, 20),
        full_range: r(line, 0, 21),
        token_range: r(line, 0, 10),
    }
}

fn module(uri: &str, name: &str, children: Vec<Annot>) -> Annot {
    Annot::Module {
        uri: uri.to_string(),
        module_name: name.to_string(),
        smodule_range: r(0, 0, 8),
        opts: vec![],
        name_range: r(0, 9, 10),
        children,
        full_range: TextRange { start: LineCol { line: 0, col: 0 }, end: LineCol { line: 9, col: 12 } },
    }
}

fn shown(c: &IncomingCall) -> (String, String, CallKind, String, String) {
    (c.name.clone(), c.detail.clone(), c.kind, c.url.clone(), c.data.clone())
}

#[test]
fn a_file_shows_its_modules_and_usemodules() {
    let doc = vec![module(
        "https://x?a=smglom/sets&m=M",
        "M",
        vec![usemodule("https://x?a=arch&p=p&m=N", "N", Some("/n.tex"), 2), import("https://x?a=b&m=I", "I", Some("/i.tex"), 3)],
    )];
    let calls = hierarchy_calls(&doc, "file:///d.tex", &HierarchyTarget::File).unwrap();
    let got: Vec<_> = calls.iter().map(shown).collect();
    assert_eq!(
        got,
        vec![
            ("M".to_string(), "smglom/sets&m=M".to_string(), CallKind::Module, "file:///d.tex".to_string(), "https://x?a=smglom/sets&m=M".to_string()),
            ("N".to_string(), "arch&p=p&m=N".to_string(), CallKind::Method, "file:///n.tex".to_string(), "https://x?a=arch&p=p&m=N".to_string()),
        ]
    );
    assert_eq!(calls[0].selection_range.end.col, 10);
    assert_eq!(calls[1].range.start.line, 2);
    assert_eq!(calls[1].from_range.end.col, 0);
}

#[test]
fn a_module_shows_its_imports() {
    let doc = vec![module(
        "https://x?a=s&m=M",
        "M",
        vec![import("https://x?a=b&m=I", "I", Some("/i.tex"), 3), import("https://x?a=b&m=J", "J", None, 4), usemodule("https://x?a=c&m=U", "U", Some("/u.tex"), 5)],
    )];
    let calls = hierarchy_calls(&doc, "u", &HierarchyTarget::Module("https://x?a=s&m=M".to_string())).unwrap();
    let got: Vec<_> = calls.iter().map(shown).collect();
    assert_eq!(got, vec![("I".to_string(), "b&m=I".to_string(), CallKind::Class, "file:///i.tex".to_string(), "https://x?a=b&m=I".to_string())]);
    assert!(hierarchy_calls(&doc, "u", &HierarchyTarget::Module("https://x?a=s&m=Z".to_string())).is_none());
    assert!(hierarchy_calls(&doc, "u", &HierarchyTarget::Other).is_none());
}

#[test]
fn a_structure_shows_what_it_extends() {
    let ext = |path: Option<&str>| RefAt {
        sym: SymRef {
            uri: symbol("a", "mod/sub", "set", "member"),
            text: "https://x?a=a&p=mod/sub&m=set&s=member".to_string(),
            def: path.map(|p| (p.to_string(), r(7, 1, 4))),
        },
        range: r(1, 20, 26),
    };
    let doc = vec![Annot::MathStructure {
        uri: "https://x?a=s&m=M&s=S".to_string(),
        mathstructure_range: r(1, 0, 15),
        name_range: r(1, 16, 17),
        opts: vec![],
        extends: vec![ext(Some("/s.tex")), ext(None)],
        children: vec![import("https://x?a=b&m=I", "I", Some("/i.tex"), 3)],
        full_range: TextRange { start: LineCol { line: 1, col: 0 }, end: LineCol { line: 9, col: 20 } },
    }];
    let calls = hierarchy_calls(&doc, "u", &HierarchyTarget::Structure("https://x?a=s&m=M&s=S".to_string())).unwrap();
    let got: Vec<_> = calls.iter().map(shown).collect();
    assert_eq!(
        got,
        vec![
            ("member".to_string(), "a&p=mod/sub&m=set&s=member".to_string(), CallKind::Struct, "file:///s.tex".to_string(), "https://x?a=a&p=mod/sub&m=set&s=member".to_string()),
            ("I".to_string(), "b&m=I".to_string(), CallKind::Class, "file:///i.tex".to_string(), "https://x?a=b&m=I".to_string()),
        ]
    );
    assert_eq!(calls[0].from_range.start.col, 20);
}
