use flams::{
    document_semantic_tokens, encode_tokens,
    as_symbol, semantic_tokens, Annot, SymbolKind, AssignKind, InlineMorphAssign, KeyArg, LineCol, MorphismKind,
    NameAt, ParagraphKind, STeXSemanticTokens as T, TextRange,
};

fn r(line: u32, a: u32, b: u32) -> TextRange {
    TextRange { start: LineCol { line, col: a }, end: LineCol { line, col: b } }
}

fn tokens(a: &Annot) -> Vec<(u32, u32, u32, u32, u32)> {
    let mut out = Vec::new();
    semantic_tokens(a, &mut out);
    out.iter().map(|(x, t)| (x.start.line, x.start.col, x.end.line, x.end.col, *t)).collect()
}

#[test]
fn a_module_with_arguments_and_children() {
    let full = TextRange { start: LineCol { line: 0, col: 0 }, end: LineCol { line: 9, col: 20 } };
    let m = Annot::Module {
        uri: "m".to_string(),
        module_name: "m".to_string(),
        smodule_range: r(0, 0, 8),
        opts: vec![KeyArg::Nested { key: r(0, 9, 14), val: vec![Annot::SemanticMacro { uri: "u".to_string(), def: None, full_range: r(0, 15, 20), token_range: r(0, 15, 18) }] }],
        name_range: r(0, 20, 23),
        children: vec![Annot::Symref { syms: vec![], token_range: r(3, 0, 7), name_range: r(3, 8, 10) }],
        full_range: full,
    };
    assert_eq!(
        tokens(&m),
        vec![
            (0, 0, 0, 8, T::DECLARATION),
            (0, 9, 0, 14, T::KEYWORD),
            (0, 15, 0, 18, T::SYMBOL),
            (0, 20, 0, 23, T::NAME),
            (3, 0, 3, 7, T::REF_MACRO),
            (3, 8, 3, 10, T::SYMBOL),
            (9, 12, 9, 19, T::DECLARATION),
        ]
    );
}

#[test]
fn paragraphs_close_by_their_kind() {
    let full = TextRange { start: LineCol { line: 1, col: 2 }, end: LineCol { line: 4, col: 30 } };
    let p = |kind| Annot::Paragraph {
        kind,
        kind_name: "definition".to_string(),
        has_symbol: true,
        name_range: r(1, 2, 10),
        parsed_args: vec![KeyArg::Fors { key: r(1, 11, 15), val_range: r(1, 16, 18), symbols: vec![NameAt { syms: vec![], range: r(1, 16, 18) }] }],
        children: vec![],
        full_range: full,
    };
    assert_eq!(
        tokens(&p(ParagraphKind::Definition)),
        vec![
            (1, 2, 1, 10, T::DECLARATION),
            (1, 11, 1, 15, T::KEYWORD),
            (1, 16, 1, 18, T::SYMBOL),
            (4, 18, 4, 29, T::DECLARATION),
        ]
    );
    assert_eq!(tokens(&p(ParagraphKind::Other)).len(), 3);
    let prob = Annot::Problem { name_range: r(1, 2, 10), parsed_args: vec![], children: vec![], full_range: full };
    assert_eq!(tokens(&prob), vec![(1, 2, 1, 10, T::REF_MACRO), (4, 2, 4, 29, T::REF_MACRO)]);
}

#[test]
fn morphisms_and_assignments() {
    let full = TextRange { start: LineCol { line: 0, col: 0 }, end: LineCol { line: 2, col: 40 } };
    let env = Annot::MorphismEnv {
        uri: "e".to_string(),
        env_range: r(0, 0, 5),
        name_range: r(0, 6, 8),
        domain_is_struct: true,
        domain: "d".to_string(),
        domain_def: None,
        domain_range: r(0, 9, 12),
        children: vec![],
        full_range: full,
        kind: MorphismKind::InterpretModule,
        star: true,
    };
    assert_eq!(
        tokens(&env),
        vec![
            (0, 0, 0, 5, T::DECLARATION),
            (0, 6, 0, 8, T::NAME),
            (0, 9, 0, 12, T::SYMBOL),
            (2, 23, 2, 39, T::DECLARATION),
        ]
    );
    let inline = Annot::InlineMorphism {
        uri: "i".to_string(),
        full_range: r(5, 0, 20),
        token_range: r(5, 0, 4),
        name_range: r(5, 5, 6),
        domain_is_struct: false,
        domain: String::new(),
        domain_def: None,
        domain_range: r(5, 7, 9),
        assignments: vec![InlineMorphAssign {
            symbol: "s".to_string(),
            def: None,
            symbol_range: r(5, 10, 11),
            first: Some((LineCol { line: 5, col: 12 }, AssignKind::Rename(Some(r(5, 13, 14)), r(5, 15, 16)))),
            second: None,
        }],
    };
    assert_eq!(
        tokens(&inline),
        vec![
            (5, 0, 5, 4, T::DECLARATION),
            (5, 5, 5, 6, T::NAME),
            (5, 10, 5, 11, T::SYMBOL),
            (5, 12, 5, 13, T::KEYWORD),
            (5, 13, 5, 14, T::NAME),
            (5, 15, 5, 16, T::NAME),
        ]
    );
}

#[test]
fn simple_annotations() {
    assert_eq!(tokens(&Annot::UseModule { module: "x".to_string(), module_name: "x".to_string(), module_file: None, archive_range: None, path_range: r(0, 1, 3), full_range: r(0, 0, 3), token_range: r(0, 0, 1) }), vec![(0, 0, 0, 1, T::LOCAL)]);
    assert_eq!(tokens(&Annot::Svar { name: "x".to_string(), full_range: r(0, 0, 1) }), vec![(0, 0, 0, 1, T::VARIABLE)]);
    assert!(tokens(&Annot::SnifySuggestion { range: r(0, 0, 1), symbols: vec![] }).is_empty());
    assert_eq!(
        tokens(&Annot::Definiens { syms: vec![], token_range: r(0, 0, 1), name_range: Some(r(0, 2, 3)) }),
        vec![(0, 0, 0, 1, T::REF_MACRO), (0, 2, 0, 3, T::SYMBOL)]
    );
}

#[test]
fn outline_entries() {
    let full = TextRange { start: LineCol { line: 0, col: 0 }, end: LineCol { line: 9, col: 20 } };
    let m = Annot::Module {
        uri: "https://x?a=b&m=mod".to_string(),
        module_name: "m".to_string(),
        smodule_range: r(0, 0, 8),
        opts: vec![],
        name_range: r(0, 9, 12),
        children: vec![Annot::SnifySuggestion { range: r(1, 0, 1), symbols: vec![] }],
        full_range: full,
    };
    let (d, ch) = as_symbol(&m).unwrap();
    assert_eq!(d.name, "https://x?a=b&m=mod");
    assert!(d.kind == SymbolKind::Module);
    assert_eq!(d.selection_range.start.col, 9);
    assert_eq!(ch.len(), 1);
    let imp = Annot::ImportModule { module: "mod".to_string(), module_name: "mod".to_string(), module_file: None, archive_range: None, path_range: r(0, 4, 7), full_range: full, token_range: r(0, 0, 3) };
    let (d, ch) = as_symbol(&imp).unwrap();
    assert_eq!(d.name, "import@mod");
    assert_eq!(d.detail, Some("mod".to_string()));
    assert!(ch.is_empty());
    let inp = Annot::Inputref { archive: Some("a/b".to_string()), filepath: "f.tex".to_string(), full_range: full, token_range: r(0, 0, 3) };
    assert_eq!(as_symbol(&inp).unwrap().0.name, "inputref@[a/b]f.tex");
    let inp2 = Annot::MHInput { archive: None, filepath: "g.tex".to_string(), full_range: full, token_range: r(0, 0, 3) };
    assert_eq!(as_symbol(&inp2).unwrap().0.name, "mhinput@g.tex");
    let ext = Annot::ConservativeExt { uri: "s".to_string(), def: None, extstructure_range: r(0, 0, 3), ext_range: r(0, 4, 5), children: vec![], full_range: full };
    assert_eq!(as_symbol(&ext).unwrap().0.name, "s_EXT");
    assert!(as_symbol(&Annot::Svar { name: "x".to_string(), full_range: full }).is_none());
}

#[test]
fn tokens_are_sent_relative_to_the_previous_one() {
    let ts = vec![
        (r(0, 0, 3), T::NAME),
        (r(0, 4, 6), T::KEYWORD),
        (r(2, 3, 9), T::SYMBOL),
        (r(2, 3, 5), T::LOCAL),
        (r(1, 0, 2), T::LOCAL),
        (TextRange { start: LineCol { line: 2, col: 7 }, end: LineCol { line: 3, col: 1 } }, T::VARIABLE),
        (r(4, 5, 2), T::COMMENT),
    ];
    let got: Vec<(u32, u32, u32, u32)> =
        encode_tokens(&ts).iter().map(|t| (t.delta_line, t.delta_start, t.length, t.token_type)).collect();
    assert_eq!(
        got,
        vec![(0, 4, 2, T::KEYWORD), (2, 3, 6, T::SYMBOL), (0, 4, 999, T::VARIABLE), (2, 5, 999, T::COMMENT)]
    );
    let doc = vec![Annot::Svar { name: "x".to_string(), full_range: r(1, 2, 3) }];
    let d = document_semantic_tokens(&doc);
    assert_eq!((d[0].delta_line, d[0].delta_start, d[0].length, d[0].token_type), (1, 2, 1, T::VARIABLE));
}
