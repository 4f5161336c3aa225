use flams::{
    code_action, goto_definition, graphics_source, hover, AssignKind, Location, range_holds, ActionKind, Annot, BaseURI, InlineMorphAssign, KeyArg,
    LineCol, NameAt, ParagraphKind, RefAt, SymRef, SymbolURI, TextRange,
};

fn r(line: u32, a: u32, b: u32) -> TextRange {
    TextRange { start: LineCol { line, col: a }, end: LineCol { line, col: b } }
}

fn at(line: u32, col: u32) -> LineCol {
    LineCol { line, col }
}

fn symbol(archive: &str, path: &str, module: &str, name: &str) -> SymbolURI {
    let a = BaseURI::new_unchecked("https://mathhub.info").archive_named(archive);
    let p = a.path_named(path).ok().unwrap();
    p.module_named(module).ok().unwrap().symbol_named(name).ok().unwrap()
}

fn sym(archive: &str, text: &str) -> SymRef {
    SymRef { uri: symbol(archive, "mod/sub", "set", "member"), text: text.to_string(), def: None }
}

fn shown(h: Option<flams::HoverInfo>) -> Option<(u32, u32, u32, u32, String)> {
    h.map(|h| (h.range.start.line, h.range.start.col, h.range.end.line, h.range.end.col, h.markdown))
}

#[test]
fn ranges_hold_their_ends() {
    let x = TextRange { start: at(1, 4), end: at(3, 2) };
    assert!(range_holds(&x, at(1, 4)));
    assert!(range_holds(&x, at(2, 0)));
    assert!(range_holds(&x, at(3, 2)));
    assert!(!range_holds(&x, at(1, 3)));
    assert!(!range_holds(&x, at(3, 3)));
    assert!(!range_holds(&x, at(0, 9)));
}

#[test]
fn hovering_over_a_symbol_shows_its_uri() {
    let a = Annot::SymName { syms: vec![sym("a", "A?m?s"), sym("b", "B?m?s")], token_range: r(0, 0, 4), name_range: r(0, 5, 8) };
    assert_eq!(shown(hover(&a, &None, at(0, 0))), Some((0, 5, 0, 8, "<sup>`A?m?s`</sup>".to_string())));
    let v = Annot::Svar { name: "x".to_string(), full_range: r(2, 0, 6) };
    assert_eq!(shown(hover(&v, &None, at(9, 9))), Some((2, 0, 2, 6, "Variable <sup>`x`</sup>".to_string())));
    let m = Annot::Module {
        uri: "M".to_string(),
        module_name: "m".to_string(),
        smodule_range: r(0, 0, 8),
        opts: vec![],
        name_range: r(0, 9, 12),
        children: vec![],
        full_range: TextRange { start: at(0, 0), end: at(9, 20) },
    };
    assert_eq!(shown(hover(&m, &None, at(0, 0))), Some((0, 0, 0, 12, "M".to_string())));
    let d = Annot::Definiens { syms: vec![], token_range: r(0, 0, 1), name_range: None };
    assert!(hover(&d, &None, at(0, 0)).is_none());
}

#[test]
fn hovering_inside_lists_picks_the_entry_under_the_cursor() {
    let ms = Annot::MathStructure {
        uri: "S".to_string(),
        mathstructure_range: r(0, 0, 5),
        name_range: r(0, 6, 7),
        opts: vec![],
        extends: vec![RefAt { sym: sym("a", "E1"), range: r(0, 10, 12) }, RefAt { sym: sym("a", "E2"), range: r(0, 13, 15) }],
        children: vec![],
        full_range: TextRange { start: at(0, 0), end: at(4, 20) },
    };
    assert_eq!(shown(hover(&ms, &None, at(0, 14))), Some((0, 13, 0, 15, "<sup>`E2`</sup>".to_string())));
    assert!(hover(&ms, &None, at(0, 8)).is_none());
    let inline = Annot::InlineMorphism {
        uri: "i".to_string(),
        full_range: r(5, 0, 20),
        token_range: r(5, 0, 4),
        name_range: r(5, 5, 6),
        domain_is_struct: false,
        domain: String::new(),
        domain_def: None,
        domain_range: r(5, 7, 9),
        assignments: vec![InlineMorphAssign { symbol: "T".to_string(), def: None, symbol_range: r(5, 10, 11), first: None, second: None }],
    };
    assert!(hover(&inline, &None, at(5, 8)).is_none());
    assert_eq!(shown(hover(&inline, &None, at(5, 11))), Some((5, 10, 5, 11, "<sup>`T`</sup>".to_string())));
    let p = Annot::Paragraph {
        kind: ParagraphKind::Definition,
        kind_name: "definition".to_string(),
        has_symbol: true,
        name_range: r(1, 2, 10),
        parsed_args: vec![KeyArg::Fors {
            key: r(1, 11, 15),
            val_range: r(1, 16, 30),
            symbols: vec![NameAt { syms: vec![sym("a", "F1")], range: r(1, 16, 18) }, NameAt { syms: vec![sym("a", "F2")], range: r(1, 20, 22) }],
        }],
        children: vec![],
        full_range: TextRange { start: at(1, 2), end: at(4, 30) },
    };
    assert_eq!(shown(hover(&p, &None, at(1, 21))), Some((1, 20, 1, 22, "<sup>`F2`</sup>".to_string())));
    assert!(hover(&p, &None, at(1, 25)).is_none());
    assert!(hover(&p, &None, at(1, 12)).is_none());
}

#[test]
fn images_are_shown_from_their_archive() {
    let g = Annot::MHGraphics { archive: None, filepath: "img/x.png".to_string(), filepath_range: r(3, 12, 21), full_range: r(3, 0, 30), token_range: r(3, 0, 11) };
    assert_eq!(graphics_source(&g, Some("top/arch")), Some(("top/arch".to_string(), "img/x.png".to_string())));
    assert_eq!(graphics_source(&g, None), None);
    let own = Annot::MHGraphics { archive: Some("own".to_string()), filepath: "y.png".to_string(), filepath_range: r(3, 12, 17), full_range: r(3, 0, 30), token_range: r(3, 0, 11) };
    assert_eq!(graphics_source(&own, Some("top/arch")), Some(("own".to_string(), "y.png".to_string())));
    assert_eq!(
        shown(hover(&g, &Some("https://x/img.png".to_string()), at(0, 0))),
        Some((3, 0, 3, 30, "![img](https://x/img.png)".to_string()))
    );
    assert!(hover(&g, &None, at(3, 1)).is_none());
}

#[test]
fn ambiguous_names_offer_their_shortest_forms() {
    let a = Annot::Symref { syms: vec![sym("smglom/sets", "A"), sym("other/arch", "B")], token_range: r(0, 0, 4), name_range: r(0, 5, 8) };
    let acts = code_action(&a, at(0, 6), "file:///d.tex");
    let got: Vec<(String, String)> = acts
        .iter()
        .map(|c| match &c.kind {
            ActionKind::Replace { url, range, new_text } => {
                assert_eq!(range.start.col, 5);
                assert_eq!(new_text, &c.title);
                (url.clone(), new_text.clone())
            }
            ActionKind::Annotate { .. } => panic!("not a replacement"),
        })
        .collect();
    assert_eq!(
        got,
        vec![
            ("file:///d.tex".to_string(), "sets/mod/sub?set?member".to_string()),
            ("file:///d.tex".to_string(), "arch/mod/sub?set?member".to_string()),
        ]
    );
    assert!(code_action(&a, at(0, 9), "file:///d.tex").is_empty());
    let one = Annot::Symref { syms: vec![sym("smglom/sets", "A")], token_range: r(0, 0, 4), name_range: r(0, 5, 8) };
    assert!(code_action(&one, at(0, 6), "u").is_empty());
}

#[test]
fn suggestions_offer_each_candidate_and_ignoring() {
    let s = Annot::SnifySuggestion { range: r(2, 3, 9), symbols: vec![(sym("a", "A?m?s"), true)] };
    let acts = code_action(&s, at(2, 4), "u");
    assert_eq!(acts.len(), 2);
    assert_eq!(acts[0].title, "A?m?s");
    match &acts[0].kind {
        ActionKind::Annotate { symbol, needs_usemodule, url, range } => {
            assert_eq!(symbol, "A?m?s");
            assert!(*needs_usemodule);
            assert_eq!(url, "u");
            assert_eq!(range.end.col, 9);
        }
        ActionKind::Replace { .. } => panic!("not an annotation"),
    }
    assert_eq!(acts[1].title, "(ignore)");
    match &acts[1].kind {
        ActionKind::Annotate { symbol, needs_usemodule, .. } => {
            assert_eq!(symbol, "");
            assert!(!*needs_usemodule);
        }
        ActionKind::Replace { .. } => panic!("not an annotation"),
    }
    assert!(code_action(&s, at(2, 10), "u").is_empty());
}

fn place(l: Option<Location>) -> Option<(String, u32, u32, u32, u32)> {
    l.map(|l| (l.url, l.range.start.line, l.range.start.col, l.range.end.line, l.range.end.col))
}

fn defined(archive: &str, path: &str, range: TextRange) -> SymRef {
    SymRef { uri: symbol(archive, "mod/sub", "set", "member"), text: "S".to_string(), def: Some((path.to_string(), range)) }
}

#[test]
fn references_lead_to_their_definitions() {
    let a = Annot::Symref { syms: vec![defined("a", "/lib/sets.tex", r(7, 2, 9))], token_range: r(0, 0, 4), name_range: r(0, 5, 8) };
    assert_eq!(place(goto_definition(&a, "file:///d.tex", at(0, 6))), Some(("file:///lib/sets.tex".to_string(), 7, 2, 7, 9)));
    assert_eq!(place(goto_definition(&a, "file:///d.tex", at(0, 9))), None);
    let rel = Annot::Symref { syms: vec![defined("a", "rel.tex", r(7, 2, 9))], token_range: r(0, 0, 4), name_range: r(0, 5, 8) };
    assert_eq!(place(goto_definition(&rel, "file:///d.tex", at(0, 6))), None);
    let unknown = Annot::Symref { syms: vec![sym("a", "S")], token_range: r(0, 0, 4), name_range: r(0, 5, 8) };
    assert_eq!(place(goto_definition(&unknown, "file:///d.tex", at(0, 6))), None);
}

#[test]
fn names_in_the_document_lead_to_themselves() {
    let m = Annot::Module {
        uri: "M".to_string(),
        module_name: "m".to_string(),
        smodule_range: r(0, 0, 8),
        opts: vec![],
        name_range: r(0, 9, 12),
        children: vec![],
        full_range: TextRange { start: at(0, 0), end: at(9, 20) },
    };
    assert_eq!(place(goto_definition(&m, "file:///d.tex", at(0, 10))), Some(("file:///d.tex".to_string(), 0, 9, 0, 12)));
    assert_eq!(place(goto_definition(&m, "file:///d.tex", at(0, 2))), None);
    let v = Annot::VariableMacro { name: "x".to_string(), orig: r(1, 3, 4), full_range: r(5, 0, 2), token_range: r(5, 0, 2) };
    assert_eq!(place(goto_definition(&v, "file:///d.tex", at(5, 1))), Some(("file:///d.tex".to_string(), 1, 3, 1, 4)));
    let d = Annot::Symdecl {
        uri: "S".to_string(),
        full_range: r(2, 0, 40),
        token_range: r(2, 0, 8),
        main_name_range: r(2, 9, 12),
        parsed_args: vec![KeyArg::KeyName { key: r(2, 14, 18), val: r(2, 19, 23) }],
    };
    assert_eq!(place(goto_definition(&d, "u", at(2, 20))), Some(("u".to_string(), 2, 19, 2, 23)));
    assert_eq!(place(goto_definition(&d, "u", at(2, 10))), Some(("u".to_string(), 2, 9, 2, 12)));
    assert_eq!(place(goto_definition(&d, "u", at(2, 16))), None);
}

#[test]
fn imports_lead_to_the_start_of_the_module_file() {
    let i = Annot::ImportModule {
        module: "mod".to_string(),
        module_name: "mod".to_string(),
        module_file: Some("/m/x.tex".to_string()),
        archive_range: Some(r(0, 10, 14)),
        path_range: r(0, 15, 20),
        full_range: r(0, 0, 21),
        token_range: r(0, 0, 9),
    };
    assert_eq!(place(goto_definition(&i, "u", at(0, 11))), Some(("file:///m/x.tex".to_string(), 0, 0, 0, 0)));
    assert_eq!(place(goto_definition(&i, "u", at(0, 5))), None);
}

#[test]
fn paragraph_arguments_are_searched_in_order() {
    let p = Annot::Paragraph {
        kind: ParagraphKind::Definition,
        kind_name: "definition".to_string(),
        has_symbol: true,
        name_range: r(1, 2, 10),
        parsed_args: vec![
            KeyArg::KeyName { key: r(1, 11, 15), val: r(1, 16, 19) },
            KeyArg::Fors {
                key: r(1, 20, 24),
                val_range: r(1, 25, 30),
                symbols: vec![NameAt { syms: vec![defined("a", "/f.tex", r(3, 1, 2))], range: r(1, 25, 27) }],
            },
            KeyArg::KeyName { key: r(1, 31, 35), val: r(1, 36, 39) },
        ],
        children: vec![],
        full_range: TextRange { start: at(1, 2), end: at(4, 30) },
    };
    assert_eq!(place(goto_definition(&p, "u", at(1, 17))), Some(("u".to_string(), 1, 16, 1, 19)));
    assert_eq!(place(goto_definition(&p, "u", at(1, 26))), Some(("file:///f.tex".to_string(), 3, 1, 3, 2)));
    assert_eq!(place(goto_definition(&p, "u", at(1, 37))), None);
}

#[test]
fn morphism_assignments_lead_to_the_assigned_symbol() {
    let inline = Annot::InlineMorphism {
        uri: "i".to_string(),
        full_range: r(5, 0, 40),
        token_range: r(5, 0, 4),
        name_range: r(5, 5, 6),
        domain_is_struct: false,
        domain: String::new(),
        domain_def: Some(("/dom.tex".to_string(), r(0, 0, 0))),
        domain_range: r(5, 7, 9),
        assignments: vec![InlineMorphAssign {
            symbol: "T".to_string(),
            def: Some(("/t.tex".to_string(), r(8, 1, 5))),
            symbol_range: r(5, 10, 11),
            first: Some((at(5, 12), AssignKind::Rename(None, r(5, 13, 16)))),
            second: None,
        }],
    };
    assert_eq!(place(goto_definition(&inline, "u", at(5, 8))), Some(("file:///dom.tex".to_string(), 0, 0, 0, 0)));
    assert_eq!(place(goto_definition(&inline, "u", at(5, 10))), Some(("file:///t.tex".to_string(), 5, 10, 5, 11)));
    assert_eq!(place(goto_definition(&inline, "u", at(5, 14))), Some(("u".to_string(), 5, 13, 5, 16)));
}
