use flams::{no_op, ImageStore, STeXSemanticTokens};

#[test]
fn the_no_op_rule_changes_nothing() {
    let mut e = 1u8;
    let mut a = vec![2u8];
    let mut n = String::from("x");
    let r: Option<u32> = no_op(&mut e, &mut a, &mut n);
    assert!(r.is_none());
    assert_eq!(e, 1);
    assert_eq!(a, vec![2]);
    assert_eq!(n, "x");
}

#[test]
fn semantic_token_legend() {
    assert_eq!(STeXSemanticTokens::NAME, 0);
    assert_eq!(STeXSemanticTokens::KEYWORD, 1);
    assert_eq!(STeXSemanticTokens::REF_MACRO, 4);
    assert_eq!(STeXSemanticTokens::DECORATOR, 13);
}

#[test]
fn an_image_store_can_be_made_and_shared() {
    let s = ImageStore::default();
    let _copy = s.clone();
}
