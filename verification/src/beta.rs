use vstd::prelude::*;

verus! {

/// A bound argument of a binder, by what beta reduction reads of it.
#[derive(Clone, Copy, PartialEq, Eq, Structural)]
pub enum BoundShape {
    /// A variable without a definiens; `typed` when it has a type.
    Var { typed: bool },
    /// A single sequence variable without a definiens; `typed` when it has a
    /// type.
    SeqVar { typed: bool },
    /// Anything else: a variable with a definiens, several sequence
    /// variables, a plain term.
    Other,
}

/// An argument of an application, by what beta reduction reads of it.
#[derive(Clone, Copy, PartialEq, Eq, Structural)]
pub enum ArgShape {
    /// A single term.
    Simple,
    /// An explicit sequence of terms.
    Sequence,
    /// Anything else.
    Other,
}

/// What beta reduction does for one bound argument and the argument given
/// for it, on the way to the body with each variable replaced by its
/// argument (`t[x/a]`). Each check is one of the checker's; a failed check
/// fails the reduction.
#[derive(Clone, Copy, PartialEq, Eq, Structural)]
pub enum BetaStep {
    /// Check the argument against the variable's type, then substitute it.
    CheckThenSubstitute,
    /// Infer the variable's type (failing with "untyped variable" when it
    /// cannot), check the argument against it, then substitute it.
    InferCheckThenSubstitute,
    /// The variable's type must be a sequence type; check each term of the
    /// sequence against its element type, then substitute the sequence.
    CheckElementsThenSubstitute,
    /// The variable's type must be a sequence type; check the argument
    /// against it, then substitute it.
    CheckSequenceThenSubstitute,
    /// Infer the variable's type, simplify it to a concrete sequence of
    /// types, which must be as long as the argument, check each term
    /// against its type, then substitute the sequence.
    InferConcreteCheckEachThenSubstitute,
    /// Simplify the variable's type to a concrete sequence of types, which
    /// must be as long as the argument, check each term against its type,
    /// then substitute the sequence.
    ConcreteCheckEachThenSubstitute,
    /// The combination is not handled: the reduction fails.
    Unsupported,
}

/// The step of beta reduction for the bound argument `v` and the argument
/// `a`.
pub open spec fn beta_step_of(v: BoundShape, a: ArgShape) -> BetaStep {
    match (v, a) {
        (BoundShape::Var { typed: true }, ArgShape::Simple) => BetaStep::CheckThenSubstitute,
        (BoundShape::Var { typed: false }, ArgShape::Simple) => BetaStep::InferCheckThenSubstitute,
        (BoundShape::SeqVar { typed: true }, ArgShape::Sequence) => BetaStep::CheckElementsThenSubstitute,
        (BoundShape::SeqVar { typed: true }, ArgShape::Simple) => BetaStep::CheckSequenceThenSubstitute,
        (BoundShape::Var { typed: false }, ArgShape::Sequence) => BetaStep::InferConcreteCheckEachThenSubstitute,
        (BoundShape::Var { typed: true }, ArgShape::Sequence) => BetaStep::ConcreteCheckEachThenSubstitute,
        _ => BetaStep::Unsupported,
    }
}

/// The step of beta reduction for a bound argument and the argument given
/// for it (see `beta_step_of`).
pub fn beta_step(v: BoundShape, a: ArgShape) -> (r: BetaStep)
    ensures
        r == beta_step_of(v, a),
{
    match (v, a) {
        (BoundShape::Var { typed: true }, ArgShape::Simple) => BetaStep::CheckThenSubstitute,
        (BoundShape::Var { typed: false }, ArgShape::Simple) => BetaStep::InferCheckThenSubstitute,
        (BoundShape::SeqVar { typed: true }, ArgShape::Sequence) => BetaStep::CheckElementsThenSubstitute,
        (BoundShape::SeqVar { typed: true }, ArgShape::Simple) => BetaStep::CheckSequenceThenSubstitute,
        (BoundShape::Var { typed: false }, ArgShape::Sequence) => BetaStep::InferConcreteCheckEachThenSubstitute,
        (BoundShape::Var { typed: true }, ArgShape::Sequence) => BetaStep::ConcreteCheckEachThenSubstitute,
        _ => BetaStep::Unsupported,
    }
}

/// Beta reduction applies to an application of a binder term to `n_args`
/// arguments, the binder having `n_bound` bound arguments (its body last),
/// when the binder's head is the rule's symbol (`head_matches`) and the
/// application gives at least one argument per variable.
pub open spec fn beta_applies(head_matches: bool, n_bound: nat, n_args: nat) -> bool {
    head_matches && n_args >= n_bound - 1
}

/// Whether beta reduction applies (see `beta_applies`). A binder with
/// no bound argument at all has no body, and is left out.
pub fn beta_applicable(head_matches: bool, n_bound: usize, n_args: usize) -> (r: bool)
    requires
        head_matches ==> n_bound >= 1,
    ensures
        r == beta_applies(head_matches, n_bound as nat, n_args as nat),
{
    head_matches && n_args >= n_bound - 1
}

/// How beta reduction splits an application: with a body (`body_is_term`:
/// the last bound argument is a plain term), the first `n_bound - 1`
/// arguments are bound to the variables and the rest, if any, are applied
/// to the substituted body; without one it fails.
pub open spec fn beta_split_of(body_is_term: bool, n_bound: nat, n_args: nat) -> Option<(nat, nat)> {
    if body_is_term && n_bound >= 1 {
        Some(((n_bound - 1) as nat, (n_args - (n_bound - 1)) as nat))
    } else {
        None
    }
}

/// How beta reduction splits an application (see `beta_split_of`): the
/// number of arguments bound to variables and the number left over.
pub fn beta_split(body_is_term: bool, n_bound: usize, n_args: usize) -> (r: Option<(usize, usize)>)
    requires
        body_is_term && n_bound >= 1 ==> n_args >= n_bound - 1,
    ensures
        match (r, beta_split_of(body_is_term, n_bound as nat, n_args as nat)) {
            (None, None) => true,
            (Some((k, rest)), Some((sk, srest))) => k == sk && rest == srest,
            _ => false,
        },
{
    if body_is_term && n_bound >= 1 {
        Some((n_bound - 1, n_args - (n_bound - 1)))
    } else {
        None
    }
}

} // verus!
