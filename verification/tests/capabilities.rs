use flams::{capabilities, STeXSemanticTokens as T};

#[test]
fn the_server_announces_its_legend_and_encoding() {
    let c = capabilities();
    assert_eq!(c.position_encoding, "utf-16");
    assert!(c.sync_open_close && c.sync_incremental && c.sync_save && !c.sync_will_save);
    assert_eq!(c.token_types.len(), 14);
    assert_eq!(c.token_types[T::NAME as usize], "enumMember");
    assert_eq!(c.token_types[T::SYMBOL as usize], "string");
    assert_eq!(c.token_types[T::DECORATOR as usize], "decorator");
    assert!(c.token_modifiers.is_empty());
    assert!(c.tokens_range && c.tokens_delta);
    assert_eq!(c.document_filters.len(), 2);
    assert_eq!(c.document_filters[1].language, "latex");
    assert_eq!(c.document_filters[0].pattern, "**/*.tex");
    assert_eq!(c.code_action_kinds[1], "snify/annotate");
    assert_eq!(c.semantic_tokens_id, "stex-sem-tokens");
    assert!(c.call_hierarchy && !c.formatting && !c.workspace_diagnostics);
}
