use flams::{beta_applicable, beta_split, beta_step, ArgShape, BetaStep, BoundShape};

#[test]
fn each_bound_argument_is_handled_by_its_shape() {
    assert!(beta_step(BoundShape::Var { typed: true }, ArgShape::Simple) == BetaStep::CheckThenSubstitute);
    assert!(beta_step(BoundShape::Var { typed: false }, ArgShape::Simple) == BetaStep::InferCheckThenSubstitute);
    assert!(beta_step(BoundShape::SeqVar { typed: true }, ArgShape::Sequence) == BetaStep::CheckElementsThenSubstitute);
    assert!(beta_step(BoundShape::SeqVar { typed: true }, ArgShape::Simple) == BetaStep::CheckSequenceThenSubstitute);
    assert!(beta_step(BoundShape::Var { typed: false }, ArgShape::Sequence) == BetaStep::InferConcreteCheckEachThenSubstitute);
    assert!(beta_step(BoundShape::Var { typed: true }, ArgShape::Sequence) == BetaStep::ConcreteCheckEachThenSubstitute);
    assert!(beta_step(BoundShape::SeqVar { typed: false }, ArgShape::Simple) == BetaStep::Unsupported);
    assert!(beta_step(BoundShape::Other, ArgShape::Simple) == BetaStep::Unsupported);
    assert!(beta_step(BoundShape::Var { typed: true }, ArgShape::Other) == BetaStep::Unsupported);
}

#[test]
fn beta_reduction_needs_an_argument_per_variable() {
    assert!(beta_applicable(true, 3, 2));
    assert!(beta_applicable(true, 3, 5));
    assert!(!beta_applicable(true, 3, 1));
    assert!(!beta_applicable(false, 3, 2));
    assert_eq!(beta_split(true, 3, 5), Some((2, 3)));
    assert_eq!(beta_split(true, 1, 0), Some((0, 0)));
    assert_eq!(beta_split(false, 3, 5), None);
}
