use crate::trace::{Displayable, Uri};
use vstd::prelude::*;

verus! {

/// A rule of the checker: how urgently it is tried, and how a log shows it.
pub trait CheckerRule: Sized {
    /// The rule's priority; rules of higher priority are tried first.
    spec fn rule_priority(&self) -> int;

    /// Whether two rules are the same rule.
    spec fn same_rule(&self, other: &Self) -> bool;

    /// Sameness of rules does not depend on the order in which two rules
    /// are compared.
    proof fn lemma_same_rule_symmetric(&self, other: &Self)
        ensures
            self.same_rule(other) == other.same_rule(self);

    /// The rule's priority.
    fn priority(&self) -> (r: isize)
        ensures
            r == self.rule_priority();

    /// How a log shows the rule.
    fn display(&self) -> Vec<Displayable>;

    /// Whether two rules are the same rule.
    fn same_as(&self, other: &Self) -> (r: bool)
        ensures
            r == self.same_rule(other);
}

/// A rule that only marks something about a symbol.
pub trait MarkerRule: CheckerRule {}

/// `parts` is the one text `text`.
pub open spec fn is_text(parts: Seq<Displayable>, text: Seq<char>) -> bool {
    &&& parts.len() == 1
    &&& parts[0] matches Displayable::String(s)
    &&& s@ == text
}

/// `d` is the text `text`.
pub open spec fn is_text_piece(d: Displayable, text: Seq<char>) -> bool {
    d matches Displayable::String(s) && s@ == text
}

fn text(s: &str) -> (r: Vec<Displayable>)
    ensures
        is_text(r@, s@),
{
    let mut v: Vec<Displayable> = Vec::new();
    v.push(Displayable::String(s.to_string()));
    v
}

impl Uri {
    /// A copy of the URI.
    pub fn copy(&self) -> (r: Uri)
        ensures
            r == *self,
    {
        match self {
            Uri::Symbol { module_name, name } => Uri::Symbol {
                module_name: module_name.clone(),
                name: name.clone(),
            },
            Uri::Other(s) => Uri::Other(s.clone()),
        }
    }
}

/// Infers the types of terms with implicit arguments.
#[derive(Clone, Copy, PartialEq, Eq, Structural)]
pub struct ImplicitRule;

impl CheckerRule for ImplicitRule {
    open spec fn rule_priority(&self) -> int {
        100_000
    }

    open spec fn same_rule(&self, other: &Self) -> bool {
        true
    }

    proof fn lemma_same_rule_symmetric(&self, other: &Self) {
    }

    fn priority(&self) -> (r: isize) {
        100_000
    }

    fn display(&self) -> (r: Vec<Displayable>)
        ensures
            is_text(r@, "implicit arguments"@),
    {
        text("implicit arguments")
    }

    fn same_as(&self, other: &Self) -> (r: bool) {
        true
    }
}

/// Solves the unknowns of a term.
#[derive(Clone, Copy, PartialEq, Eq, Structural)]
pub struct UnknownsRule;

impl CheckerRule for UnknownsRule {
    open spec fn rule_priority(&self) -> int {
        100_000
    }

    open spec fn same_rule(&self, other: &Self) -> bool {
        true
    }

    proof fn lemma_same_rule_symmetric(&self, other: &Self) {
    }

    fn priority(&self) -> (r: isize) {
        100_000
    }

    fn display(&self) -> (r: Vec<Displayable>)
        ensures
            is_text(r@, "bound unknowns"@),
    {
        text("bound unknowns")
    }

    fn same_as(&self, other: &Self) -> (r: bool) {
        true
    }
}

/// Applies morphisms.
#[derive(Clone, Copy, PartialEq, Eq, Structural)]
pub struct MorphismRule;

impl CheckerRule for MorphismRule {
    open spec fn rule_priority(&self) -> int {
        100_000
    }

    open spec fn same_rule(&self, other: &Self) -> bool {
        true
    }

    proof fn lemma_same_rule_symmetric(&self, other: &Self) {
    }

    fn priority(&self) -> (r: isize) {
        100_000
    }

    fn display(&self) -> (r: Vec<Displayable>)
        ensures
            is_text(r@, "morphism rule"@),
    {
        text("morphism rule")
    }

    fn same_as(&self, other: &Self) -> (r: bool) {
        true
    }
}

/// Sees through comments around terms.
#[derive(Clone, Copy, PartialEq, Eq, Structural)]
pub struct CommentRule;

impl CheckerRule for CommentRule {
    open spec fn rule_priority(&self) -> int {
        1_000_000
    }

    open spec fn same_rule(&self, other: &Self) -> bool {
        true
    }

    proof fn lemma_same_rule_symmetric(&self, other: &Self) {
    }

    fn priority(&self) -> (r: isize) {
        1_000_000
    }

    fn display(&self) -> (r: Vec<Displayable>)
        ensures
            is_text(r@, "comment"@),
    {
        text("comment")
    }

    fn same_as(&self, other: &Self) -> (r: bool) {
        true
    }
}

/// Treats proofs as irrelevant beyond what they prove.
#[derive(Clone, Copy, PartialEq, Eq, Structural)]
pub struct ProofBarrier;

impl CheckerRule for ProofBarrier {
    open spec fn rule_priority(&self) -> int {
        100_000
    }

    open spec fn same_rule(&self, other: &Self) -> bool {
        true
    }

    proof fn lemma_same_rule_symmetric(&self, other: &Self) {
    }

    fn priority(&self) -> (r: isize) {
        100_000
    }

    fn display(&self) -> (r: Vec<Displayable>)
        ensures
            is_text(r@, "proof barrier"@),
    {
        text("proof barrier")
    }

    fn same_as(&self, other: &Self) -> (r: bool) {
        true
    }
}

/// Simplifies `type_of(t)` to the inferred type of `t`; `type_of` is the
/// symbol of that operator.
pub struct InferredTypeSimplificationRule {
    pub type_of: Uri,
}

impl CheckerRule for InferredTypeSimplificationRule {
    open spec fn rule_priority(&self) -> int {
        0
    }

    open spec fn same_rule(&self, other: &Self) -> bool {
        same_uri(self.type_of, other.type_of)
    }

    proof fn lemma_same_rule_symmetric(&self, other: &Self) {
    }

    fn priority(&self) -> (r: isize) {
        0
    }

    fn display(&self) -> (r: Vec<Displayable>)
        ensures
            r@.len() == 2,
            r@[0] == Displayable::Uri(self.type_of),
            is_text_piece(r@[1], " infers type"@),
    {
        let mut v: Vec<Displayable> = Vec::new();
        v.push(Displayable::Uri(self.type_of.copy()));
        v.push(Displayable::String(" infers type".to_string()));
        v
    }

    fn same_as(&self, other: &Self) -> (r: bool) {
        uri_eq(&self.type_of, &other.type_of)
    }
}

/// Two URIs have the same text.
pub open spec fn same_uri(a: Uri, b: Uri) -> bool {
    match (a, b) {
        (Uri::Symbol { module_name: m1, name: n1 }, Uri::Symbol { module_name: m2, name: n2 }) => m1@
            == m2@ && n1@ == n2@,
        (Uri::Other(s1), Uri::Other(s2)) => s1@ == s2@,
        _ => false,
    }
}

/// Whether two URIs have the same text.
pub fn uri_eq(a: &Uri, b: &Uri) -> (r: bool)
    ensures
        r == same_uri(*a, *b),
{
    match (a, b) {
        (Uri::Symbol { module_name: m1, name: n1 }, Uri::Symbol { module_name: m2, name: n2 }) => m1.eq(
            m2,
        ) && n1.eq(n2),
        (Uri::Other(s1), Uri::Other(s2)) => s1.eq(s2),
        _ => false,
    }
}

/// Marks a symbol as a judgement.
pub struct IsJudgmentRule(pub Uri);

impl CheckerRule for IsJudgmentRule {
    open spec fn rule_priority(&self) -> int {
        0
    }

    open spec fn same_rule(&self, other: &Self) -> bool {
        same_uri(self.0, other.0)
    }

    proof fn lemma_same_rule_symmetric(&self, other: &Self) {
    }

    fn priority(&self) -> (r: isize) {
        0
    }

    fn display(&self) -> (r: Vec<Displayable>)
        ensures
            r@.len() == 2,
            r@[0] == Displayable::Uri(self.0),
            is_text_piece(r@[1], "is a judgment"@),
    {
        let mut v: Vec<Displayable> = Vec::new();
        v.push(Displayable::Uri(self.0.copy()));
        v.push(Displayable::String("is a judgment".to_string()));
        v
    }

    fn same_as(&self, other: &Self) -> (r: bool) {
        uri_eq(&self.0, &other.0)
    }
}

impl MarkerRule for IsJudgmentRule {}

/// Marks the symbols of a higher-order abstract syntax: a binder, a
/// dependent function type and, optionally, an application.
pub struct HOASRule {
    pub lambda: Uri,
    pub pi: Uri,
    pub apply: Option<Uri>,
}

impl CheckerRule for HOASRule {
    open spec fn rule_priority(&self) -> int {
        0
    }

    open spec fn same_rule(&self, other: &Self) -> bool {
        same_uri(self.lambda, other.lambda) && same_uri(self.pi, other.pi) && match (
            self.apply,
            other.apply,
        ) {
            (Some(x), Some(y)) => same_uri(x, y),
            (None, None) => true,
            _ => false,
        }
    }

    proof fn lemma_same_rule_symmetric(&self, other: &Self) {
    }

    fn priority(&self) -> (r: isize) {
        0
    }

    fn display(&self) -> (r: Vec<Displayable>)
        ensures
            r@.len() == 4,
            is_text_piece(r@[0], "HOAS using "@),
            r@[1] == Displayable::Uri(self.lambda),
            is_text_piece(r@[2], " and "@),
            r@[3] == Displayable::Uri(self.pi),
    {
        let mut v: Vec<Displayable> = Vec::new();
        v.push(Displayable::String("HOAS using ".to_string()));
        v.push(Displayable::Uri(self.lambda.copy()));
        v.push(Displayable::String(" and ".to_string()));
        v.push(Displayable::Uri(self.pi.copy()));
        v
    }

    fn same_as(&self, other: &Self) -> (r: bool) {
        let a = uri_eq(&self.lambda, &other.lambda) && uri_eq(&self.pi, &other.pi);
        let b = match (&self.apply, &other.apply) {
            (Some(x), Some(y)) => uri_eq(x, y),
            (None, None) => true,
            _ => false,
        };
        a && b
    }
}

impl MarkerRule for HOASRule {}


/// A rule of any of the kinds above, so that rules of different kinds and
/// priorities can share one list.
pub enum AnyRule {
    Implicit(ImplicitRule),
    Unknowns(UnknownsRule),
    Morphism(MorphismRule),
    Comment(CommentRule),
    ProofBarrier(ProofBarrier),
    InferredTypeSimplification(InferredTypeSimplificationRule),
    IsJudgment(IsJudgmentRule),
    HOAS(HOASRule),
}

/// `parts` is how a log shows `rule` (as each kind's `display` says).
pub open spec fn rule_shown(rule: AnyRule, parts: Seq<Displayable>) -> bool {
    match rule {
        AnyRule::Implicit(_) => is_text(parts, "implicit arguments"@),
        AnyRule::Unknowns(_) => is_text(parts, "bound unknowns"@),
        AnyRule::Morphism(_) => is_text(parts, "morphism rule"@),
        AnyRule::Comment(_) => is_text(parts, "comment"@),
        AnyRule::ProofBarrier(_) => is_text(parts, "proof barrier"@),
        AnyRule::InferredTypeSimplification(r) => parts.len() == 2 && parts[0] == Displayable::Uri(
            r.type_of,
        ) && is_text_piece(parts[1], " infers type"@),
        AnyRule::IsJudgment(r) => parts.len() == 2 && parts[0] == Displayable::Uri(r.0)
            && is_text_piece(parts[1], "is a judgment"@),
        AnyRule::HOAS(r) => parts.len() == 4 && is_text_piece(parts[0], "HOAS using "@) && parts[1]
            == Displayable::Uri(r.lambda) && is_text_piece(parts[2], " and "@) && parts[3]
            == Displayable::Uri(r.pi),
    }
}

impl CheckerRule for AnyRule {
    open spec fn rule_priority(&self) -> int {
        match self {
            AnyRule::Implicit(r) => r.rule_priority(),
            AnyRule::Unknowns(r) => r.rule_priority(),
            AnyRule::Morphism(r) => r.rule_priority(),
            AnyRule::Comment(r) => r.rule_priority(),
            AnyRule::ProofBarrier(r) => r.rule_priority(),
            AnyRule::InferredTypeSimplification(r) => r.rule_priority(),
            AnyRule::IsJudgment(r) => r.rule_priority(),
            AnyRule::HOAS(r) => r.rule_priority(),
        }
    }

    /// Two rules are the same when they are of one kind and the same rule
    /// of that kind.
    open spec fn same_rule(&self, other: &Self) -> bool {
        match (self, other) {
            (AnyRule::Implicit(a), AnyRule::Implicit(b)) => a.same_rule(b),
            (AnyRule::Unknowns(a), AnyRule::Unknowns(b)) => a.same_rule(b),
            (AnyRule::Morphism(a), AnyRule::Morphism(b)) => a.same_rule(b),
            (AnyRule::Comment(a), AnyRule::Comment(b)) => a.same_rule(b),
            (AnyRule::ProofBarrier(a), AnyRule::ProofBarrier(b)) => a.same_rule(b),
            (AnyRule::InferredTypeSimplification(a), AnyRule::InferredTypeSimplification(b)) => a.same_rule(b),
            (AnyRule::IsJudgment(a), AnyRule::IsJudgment(b)) => a.same_rule(b),
            (AnyRule::HOAS(a), AnyRule::HOAS(b)) => a.same_rule(b),
            _ => false,
        }
    }

    proof fn lemma_same_rule_symmetric(&self, other: &Self) {
        match (self, other) {
            (AnyRule::InferredTypeSimplification(a), AnyRule::InferredTypeSimplification(b)) => a.lemma_same_rule_symmetric(b),
            (AnyRule::IsJudgment(a), AnyRule::IsJudgment(b)) => a.lemma_same_rule_symmetric(b),
            (AnyRule::HOAS(a), AnyRule::HOAS(b)) => a.lemma_same_rule_symmetric(b),
            _ => {},
        }
    }

    fn priority(&self) -> (r: isize) {
        match self {
            AnyRule::Implicit(r) => r.priority(),
            AnyRule::Unknowns(r) => r.priority(),
            AnyRule::Morphism(r) => r.priority(),
            AnyRule::Comment(r) => r.priority(),
            AnyRule::ProofBarrier(r) => r.priority(),
            AnyRule::InferredTypeSimplification(r) => r.priority(),
            AnyRule::IsJudgment(r) => r.priority(),
            AnyRule::HOAS(r) => r.priority(),
        }
    }

    fn display(&self) -> (r: Vec<Displayable>)
        ensures
            rule_shown(*self, r@),
    {
        match self {
            AnyRule::Implicit(r) => r.display(),
            AnyRule::Unknowns(r) => r.display(),
            AnyRule::Morphism(r) => r.display(),
            AnyRule::Comment(r) => r.display(),
            AnyRule::ProofBarrier(r) => r.display(),
            AnyRule::InferredTypeSimplification(r) => r.display(),
            AnyRule::IsJudgment(r) => r.display(),
            AnyRule::HOAS(r) => r.display(),
        }
    }

    fn same_as(&self, other: &Self) -> (r: bool) {
        match (self, other) {
            (AnyRule::Implicit(a), AnyRule::Implicit(b)) => a.same_as(b),
            (AnyRule::Unknowns(a), AnyRule::Unknowns(b)) => a.same_as(b),
            (AnyRule::Morphism(a), AnyRule::Morphism(b)) => a.same_as(b),
            (AnyRule::Comment(a), AnyRule::Comment(b)) => a.same_as(b),
            (AnyRule::ProofBarrier(a), AnyRule::ProofBarrier(b)) => a.same_as(b),
            (AnyRule::InferredTypeSimplification(a), AnyRule::InferredTypeSimplification(b)) => a.same_as(b),
            (AnyRule::IsJudgment(a), AnyRule::IsJudgment(b)) => a.same_as(b),
            (AnyRule::HOAS(a), AnyRule::HOAS(b)) => a.same_as(b),
            _ => false,
        }
    }
}

/// No two of the rules are the same rule.
pub open spec fn distinct_rules<T: CheckerRule>(rules: Seq<T>) -> bool {
    forall|i: int, j: int|
        #![trigger rules[i], rules[j]]
        0 <= i < j < rules.len() ==> !rules[i].same_rule(&rules[j])
}

/// The rules are ordered by descending priority, and no priority is the
/// least `isize`.
pub open spec fn by_descending_priority<T: CheckerRule>(rules: Seq<T>) -> bool {
    &&& forall|i: int, j: int|
        0 <= i < j < rules.len() ==> (#[trigger] rules[i]).rule_priority() >= (
        #[trigger] rules[j]).rule_priority()
    &&& forall|i: int| 0 <= i < rules.len() ==> (#[trigger] rules[i]).rule_priority() > isize::MIN
}

/// The key by which rules are searched: the negated priority, so that rules
/// of descending priority have ascending keys.
fn neg_priority<T: CheckerRule>(rule: &T) -> (r: isize)
    requires
        rule.rule_priority() > isize::MIN,
    ensures
        r == -rule.rule_priority(),
{
    -rule.priority()
}

/// `<[T]>::binary_search_by_key` for `key`, with each rule's key its
/// negated priority, on rules ordered by descending priority (so by
/// ascending key): the index of a rule whose key is `key` (any of them,
/// where there are several), or else the index where a rule with that key
/// keeps the order.
#[verifier::external_body]
fn search_priority<T: CheckerRule>(rules: &[T], key: isize) -> (r: Result<usize, usize>)
    requires
        by_descending_priority(rules@),
    ensures
        match r {
            Ok(i) => i < rules@.len() && -rules@[i as int].rule_priority() == key,
            Err(i) => i <= rules@.len() && (forall|j: int|
                0 <= j < i ==> -(#[trigger] rules@[j]).rule_priority() < key) && (forall|j: int|
                i <= j < rules@.len() ==> -(#[trigger] rules@[j]).rule_priority() > key),
        },
{
    rules.binary_search_by_key(&key, |e| neg_priority(e))
}

/// The rules of one kind a checker knows, by descending priority.
pub struct RuleList<T: CheckerRule> {
    rules: Vec<T>,
}

impl<T: CheckerRule> View for RuleList<T> {
    type V = Seq<T>;

    closed spec fn view(&self) -> Seq<T> {
        self.rules@
    }
}

impl<T: CheckerRule> RuleList<T> {
    #[verifier::type_invariant]
    closed spec fn ordered(self) -> bool {
        by_descending_priority(self.rules@) && distinct_rules(self.rules@)
    }

    /// No rules.
    pub fn new() -> (r: RuleList<T>)
        ensures
            r@ == Seq::<T>::empty(),
    {
        RuleList { rules: Vec::new() }
    }

    /// The rules, by descending priority.
    pub fn as_slice(&self) -> (r: &[T])
        ensures
            r@ == self@,
            by_descending_priority(r@),
            distinct_rules(r@),
    {
        proof {
            use_type_invariant(self);
        }
        self.rules.as_slice()
    }

    /// Adds a rule unless the same rule is there already. The rule goes
    /// among the rules of its priority, before those of lower priority and
    /// after those of higher.
    pub fn push(&mut self, rule: T)
        requires
            rule.rule_priority() > isize::MIN,
        ensures
            (exists|i: int| 0 <= i < old(self)@.len() && (#[trigger] old(self)@[i]).same_rule(&rule))
                ==> final(self)@ == old(self)@,
            !(exists|i: int| 0 <= i < old(self)@.len() && (#[trigger] old(self)@[i]).same_rule(&rule))
                ==> exists|pos: int| 0 <= pos <= old(self)@.len() && final(self)@ == old(self)@.insert(pos, rule),
            by_descending_priority(final(self)@),
            distinct_rules(final(self)@),
    {
        proof {
            use_type_invariant(&*self);
        }
        let mut i: usize = 0;
        #[verifier::loop_isolation(false)]
        while i < self.rules.len()
            invariant
                i <= self.rules@.len(),
                self.rules@ == old(self)@,
                forall|j: int| 0 <= j < i ==> !(#[trigger] self.rules@[j]).same_rule(&rule),
            decreases self.rules@.len() - i,
        {
            if self.rules[i].same_as(&rule) {
                proof {
                    use_type_invariant(&*self);
                    assert(old(self)@[i as int].same_rule(&rule));
                }
                return;
            }
            i = i + 1;
        }
        let p = rule.priority();
        let key = -p;
        let pos = match search_priority(self.rules.as_slice(), key) {
            Ok(i) => i,
            Err(i) => i,
        };
        let ghost old_rules = self.rules@;
        let ghost new_rules = old_rules.insert(pos as int, rule);
        proof {
            assert forall|a: int, b: int|
                0 <= a < b < new_rules.len() implies (#[trigger] new_rules[a]).rule_priority() >= (
                #[trigger] new_rules[b]).rule_priority() by {
                if a < pos && b < pos {
                    assert(new_rules[a] == old_rules[a] && new_rules[b] == old_rules[b]);
                } else if a < pos && b == pos {
                    assert(new_rules[a] == old_rules[a]);
                    if pos < old_rules.len() && old_rules[pos as int].rule_priority() == p {
                        assert(old_rules[a].rule_priority() >= old_rules[pos as int].rule_priority());
                    }
                } else if a < pos {
                    assert(new_rules[a] == old_rules[a] && new_rules[b] == old_rules[b - 1]);
                } else if a == pos {
                    assert(new_rules[b] == old_rules[b - 1]);
                    if pos < old_rules.len() && old_rules[pos as int].rule_priority() == p {
                        assert(old_rules[pos as int].rule_priority() >= old_rules[b - 1].rule_priority());
                    }
                } else {
                    assert(new_rules[a] == old_rules[a - 1] && new_rules[b] == old_rules[b - 1]);
                }
            }
            assert forall|a: int, b: int|
                #![trigger new_rules[a], new_rules[b]]
                0 <= a < b < new_rules.len() implies !new_rules[a].same_rule(&new_rules[b]) by {
                if a < pos && b < pos {
                    assert(new_rules[a] == old_rules[a] && new_rules[b] == old_rules[b]);
                } else if a < pos && b == pos {
                    assert(new_rules[a] == old_rules[a]);
                } else if a < pos {
                    assert(new_rules[a] == old_rules[a] && new_rules[b] == old_rules[b - 1]);
                } else if a == pos {
                    assert(new_rules[b] == old_rules[b - 1]);
                    old_rules[b - 1].lemma_same_rule_symmetric(&rule);
                } else {
                    assert(new_rules[a] == old_rules[a - 1] && new_rules[b] == old_rules[b - 1]);
                }
            }
            assert forall|a: int| 0 <= a < new_rules.len() implies (#[trigger] new_rules[a]).rule_priority()
                > isize::MIN by {
                if a < pos {
                    assert(new_rules[a] == old_rules[a]);
                } else if a > pos {
                    assert(new_rules[a] == old_rules[a - 1]);
                }
            }
        }
        let mut rules: Vec<T> = Vec::new();
        std::mem::swap(&mut rules, &mut self.rules);
        rules.insert(pos, rule);
        assert(rules@ == new_rules);
        self.rules = rules;
        assert(0 <= pos <= old(self)@.len() && self@ == old(self)@.insert(pos as int, rule));
    }
}


} // verus!
