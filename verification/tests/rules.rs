use flams::{
    AnyRule, CheckerRule, CommentRule, Displayable, HOASRule, ImplicitRule, InferredTypeSimplificationRule,
    IsJudgmentRule, MorphismRule, ProofBarrier, RuleList, UnknownsRule, Uri,
};

fn sym(m: &str, n: &str) -> Uri {
    Uri::Symbol { module_name: m.to_string(), name: n.to_string() }
}

fn text(d: &Displayable) -> String {
    match d {
        Displayable::String(s) => s.clone(),
        _ => panic!("not a text"),
    }
}

#[test]
fn priorities_of_the_rules() {
    assert_eq!(ImplicitRule.priority(), 100_000);
    assert_eq!(UnknownsRule.priority(), 100_000);
    assert_eq!(MorphismRule.priority(), 100_000);
    assert_eq!(ProofBarrier.priority(), 100_000);
    assert_eq!(CommentRule.priority(), 1_000_000);
    assert_eq!(InferredTypeSimplificationRule { type_of: sym("m", "t") }.priority(), 0);
    assert_eq!(IsJudgmentRule(sym("m", "j")).priority(), 0);
}

#[test]
fn how_rules_show_themselves() {
    assert_eq!(text(&ImplicitRule.display()[0]), "implicit arguments");
    assert_eq!(text(&UnknownsRule.display()[0]), "bound unknowns");
    assert_eq!(text(&MorphismRule.display()[0]), "morphism rule");
    assert_eq!(text(&CommentRule.display()[0]), "comment");
    assert_eq!(text(&ProofBarrier.display()[0]), "proof barrier");
    let d = IsJudgmentRule(sym("m", "j")).display();
    assert_eq!(d.len(), 2);
    assert_eq!(text(&d[1]), "is a judgment");
    let h = HOASRule { lambda: sym("m", "lam"), pi: sym("m", "pi"), apply: None }.display();
    assert_eq!(h.len(), 4);
    assert_eq!(text(&h[0]), "HOAS using ");
    assert_eq!(text(&h[2]), " and ");
}

#[test]
fn sameness_of_rules() {
    assert!(IsJudgmentRule(sym("m", "j")).same_as(&IsJudgmentRule(sym("m", "j"))));
    assert!(!IsJudgmentRule(sym("m", "j")).same_as(&IsJudgmentRule(sym("m", "k"))));
    assert!(!IsJudgmentRule(sym("m", "j")).same_as(&IsJudgmentRule(Uri::Other("m?j".to_string()))));
    let h1 = HOASRule { lambda: sym("m", "l"), pi: sym("m", "p"), apply: None };
    let h2 = HOASRule { lambda: sym("m", "l"), pi: sym("m", "p"), apply: Some(sym("m", "a")) };
    assert!(!h1.same_as(&h2));
    assert!(h1.same_as(&HOASRule { lambda: sym("m", "l"), pi: sym("m", "p"), apply: None }));
}

#[test]
fn a_rule_list_keeps_one_of_each_rule() {
    let mut l = RuleList::new();
    l.push(IsJudgmentRule(sym("m", "a")));
    l.push(IsJudgmentRule(sym("m", "b")));
    l.push(IsJudgmentRule(sym("m", "a")));
    assert_eq!(l.as_slice().len(), 2);
    let mut c = RuleList::new();
    c.push(CommentRule);
    c.push(CommentRule);
    assert_eq!(c.as_slice().len(), 1);
}

#[test]
fn a_rule_list_is_ordered_by_descending_priority() {
    let mut l = RuleList::new();
    l.push(AnyRule::IsJudgment(IsJudgmentRule(sym("m", "j"))));
    l.push(AnyRule::Implicit(ImplicitRule));
    l.push(AnyRule::Comment(CommentRule));
    l.push(AnyRule::Implicit(ImplicitRule));
    l.push(AnyRule::IsJudgment(IsJudgmentRule(sym("m", "k"))));
    l.push(AnyRule::Comment(CommentRule));
    let prios: Vec<isize> = l.as_slice().iter().map(|r| r.priority()).collect();
    assert_eq!(prios, vec![1_000_000, 100_000, 0, 0]);
    assert!(matches!(&l.as_slice()[0], AnyRule::Comment(_)));
    assert!(matches!(&l.as_slice()[1], AnyRule::Implicit(_)));
    assert_eq!(text(&AnyRule::Morphism(MorphismRule).display()[0]), "morphism rule");
}
