use vstd::prelude::*;

verus! {

/// A term as a check log carries it: the log never looks inside a term, it
/// only prints its short rendering.
pub struct Term {
    pub short: String,
}

/// A URI as a check log prints it: symbols as `module?name`, anything else by
/// its full text.
pub enum Uri {
    Symbol { module_name: String, name: String },
    Other(String),
}

/// A bound variable, known by its name.
pub struct Variable {
    pub name: String,
}

/// A variable of the typing context, with its optional type and definiens.
pub struct ComponentVar {
    pub var: Variable,
    pub tp: Option<Term>,
    pub df: Option<Term>,
}

/// How a message in a check log is to be shown.
#[derive(PartialEq, Eq, Structural, Clone, Copy)]
pub enum MessageLevel {
    Failure,
    Comment,
    Header,
    Emph,
}

/// One piece of a message in a check log.
pub enum Displayable {
    Num(i128),
    String(String),
    Term(Term),
    Uri(Uri),
    Var(Variable),
}

#[allow(inconsistent_fields)]
/// The trace of a type-checking run: every task the checker took on, the
/// steps it took for it, and what came out.
pub enum CheckLog {
    Simplify { term: Term, steps: Vec<CheckLog>, context: Vec<ComponentVar>, result: Option<Term> },
    Proving { term: Term, steps: Vec<CheckLog>, context: Vec<ComponentVar>, result: Option<Term> },
    Inference { term: Term, steps: Vec<CheckLog>, context: Vec<ComponentVar>, result: Option<Term> },
    VariableInference {
        var: String,
        steps: Vec<CheckLog>,
        context: Vec<ComponentVar>,
        result: Option<Term>,
    },
    Inhabitable { term: Term, steps: Vec<CheckLog>, context: Vec<ComponentVar>, result: Option<bool> },
    Universe { term: Term, steps: Vec<CheckLog>, context: Vec<ComponentVar>, result: Option<bool> },
    Subtype {
        sub: Term,
        sup: Term,
        steps: Vec<CheckLog>,
        context: Vec<ComponentVar>,
        result: Option<bool>,
    },
    HasType {
        tm: Term,
        tp: Term,
        steps: Vec<CheckLog>,
        context: Vec<ComponentVar>,
        result: Option<bool>,
    },
    Equality {
        lhs: Term,
        rhs: Term,
        steps: Vec<CheckLog>,
        context: Vec<ComponentVar>,
        result: Option<bool>,
    },
    Comment(Vec<Displayable>),
    Emph(Vec<Displayable>),
    Header(Vec<Displayable>),
    Fail(Vec<Displayable>),
    Strategy { name: String, steps: Vec<CheckLog>, success: bool },
    Rule { header: Vec<Displayable>, steps: Vec<CheckLog> },
}

impl CheckLog {
    /// Every entry but a bare message has sub-steps.
    pub open spec fn has_steps(self) -> bool {
        !(self is Comment || self is Emph || self is Header || self is Fail)
    }

    /// The sub-steps of this entry (none for a bare message).
    pub open spec fn steps(self) -> Seq<CheckLog> {
        match self {
            CheckLog::Simplify { steps, .. } => steps@,
            CheckLog::Proving { steps, .. } => steps@,
            CheckLog::Inference { steps, .. } => steps@,
            CheckLog::VariableInference { steps, .. } => steps@,
            CheckLog::Inhabitable { steps, .. } => steps@,
            CheckLog::Universe { steps, .. } => steps@,
            CheckLog::Subtype { steps, .. } => steps@,
            CheckLog::HasType { steps, .. } => steps@,
            CheckLog::Equality { steps, .. } => steps@,
            CheckLog::Strategy { steps, .. } => steps@,
            CheckLog::Rule { steps, .. } => steps@,
            _ => Seq::empty(),
        }
    }

    /// Whether the task this entry records succeeded: a judgement holds when
    /// its result is `Some(true)`, a term-valued task when it produced a term,
    /// a strategy when it says so, a rule when all its steps succeeded; a
    /// bare message never counts as a success.
    pub open spec fn is_success(self) -> bool
        decreases self,
    {
        match self {
            CheckLog::Equality { result, .. } => result == Some(true),
            CheckLog::HasType { result, .. } => result == Some(true),
            CheckLog::Inhabitable { result, .. } => result == Some(true),
            CheckLog::Subtype { result, .. } => result == Some(true),
            CheckLog::Universe { result, .. } => result == Some(true),
            CheckLog::Rule { steps, .. } => forall|i: int|
                0 <= i < steps@.len() ==> (#[trigger] steps@[i]).is_success(),
            CheckLog::Inference { result, .. } => result is Some,
            CheckLog::VariableInference { result, .. } => result is Some,
            CheckLog::Simplify { result, .. } => result is Some,
            CheckLog::Proving { result, .. } => result is Some,
            CheckLog::Strategy { success, .. } => success,
            _ => false,
        }
    }

    /// Whether the task this entry records succeeded (see `is_success`).
    pub fn success(&self) -> (r: bool)
        ensures
            r == self.is_success(),
        decreases self,
    {
        match self {
            CheckLog::Equality { result, .. } | CheckLog::HasType { result, .. }
            | CheckLog::Inhabitable { result, .. } | CheckLog::Subtype { result, .. }
            | CheckLog::Universe { result, .. } => match result {
                Some(b) => *b,
                None => false,
            },
            CheckLog::Rule { steps, .. } => {
                let mut i: usize = 0;
                #[verifier::loop_isolation(false)]
                while i < steps.len()
                    invariant
                        0 <= i <= steps@.len(),
                        forall|j: int| 0 <= j < i ==> (#[trigger] steps@[j]).is_success(),
                    decreases steps@.len() - i,
                {
                    proof {
                        assert(decreases_to!(self => steps@[i as int]));
                    }
                    if !steps[i].success() {
                        return false;
                    }
                    i = i + 1;
                }
                true
            },
            CheckLog::Inference { result, .. } | CheckLog::VariableInference { result, .. }
            | CheckLog::Simplify { result, .. } | CheckLog::Proving { result, .. } => result.is_some(),
            CheckLog::Strategy { success, .. } => *success,
            _ => false,
        }
    }
}


impl CheckLog {
    /// `self` and `other` record the same task with the same context and
    /// outcome, or are the same strategy or rule; only their steps may differ.
    pub open spec fn same_except_steps(self, other: CheckLog) -> bool {
        match (self, other) {
            (
                CheckLog::Simplify { term: a, context: c, result: r, .. },
                CheckLog::Simplify { term: a2, context: c2, result: r2, .. },
            ) => a == a2 && c == c2 && r == r2,
            (
                CheckLog::Proving { term: a, context: c, result: r, .. },
                CheckLog::Proving { term: a2, context: c2, result: r2, .. },
            ) => a == a2 && c == c2 && r == r2,
            (
                CheckLog::Inference { term: a, context: c, result: r, .. },
                CheckLog::Inference { term: a2, context: c2, result: r2, .. },
            ) => a == a2 && c == c2 && r == r2,
            (
                CheckLog::VariableInference { var: a, context: c, result: r, .. },
                CheckLog::VariableInference { var: a2, context: c2, result: r2, .. },
            ) => a == a2 && c == c2 && r == r2,
            (
                CheckLog::Inhabitable { term: a, context: c, result: r, .. },
                CheckLog::Inhabitable { term: a2, context: c2, result: r2, .. },
            ) => a == a2 && c == c2 && r == r2,
            (
                CheckLog::Universe { term: a, context: c, result: r, .. },
                CheckLog::Universe { term: a2, context: c2, result: r2, .. },
            ) => a == a2 && c == c2 && r == r2,
            (
                CheckLog::Subtype { sub: a, sup: b, context: c, result: r, .. },
                CheckLog::Subtype { sub: a2, sup: b2, context: c2, result: r2, .. },
            ) => a == a2 && b == b2 && c == c2 && r == r2,
            (
                CheckLog::HasType { tm: a, tp: b, context: c, result: r, .. },
                CheckLog::HasType { tm: a2, tp: b2, context: c2, result: r2, .. },
            ) => a == a2 && b == b2 && c == c2 && r == r2,
            (
                CheckLog::Equality { lhs: a, rhs: b, context: c, result: r, .. },
                CheckLog::Equality { lhs: a2, rhs: b2, context: c2, result: r2, .. },
            ) => a == a2 && b == b2 && c == c2 && r == r2,
            (
                CheckLog::Strategy { name: a, success: b, .. },
                CheckLog::Strategy { name: a2, success: b2, .. },
            ) => a == a2 && b == b2,
            (CheckLog::Rule { header: a, .. }, CheckLog::Rule { header: a2, .. }) => a == a2,
            _ => false,
        }
    }

    /// `new` is what filtering `self` for failures gives: a bare message
    /// stays as it is; otherwise the entry keeps its task and outcome and its
    /// steps are filtered as `steps_filtered` says.
    pub open spec fn filtered_to(self, new: CheckLog, preserve_siblings: bool) -> bool
        decreases self,
    {
        if self.has_steps() {
            &&& self.same_except_steps(new)
            &&& steps_filtered(self.steps(), new.steps(), preserve_siblings)
        } else {
            new == self
        }
    }
}

/// `new` is what filtering the steps `old` for failures gives. Keeping
/// siblings, every step stays, a successful one filtered without keeping
/// siblings and a failed one filtered keeping them. Otherwise only the failed
/// steps stay, in their order, each filtered without keeping siblings.
pub open spec fn steps_filtered(old: Seq<CheckLog>, new: Seq<CheckLog>, preserve_siblings: bool) -> bool
    decreases old,
{
    if preserve_siblings {
        &&& new.len() == old.len()
        &&& forall|i: int|
            #![trigger old[i], new[i]]
            0 <= i < old.len() ==> old[i].filtered_to(new[i], !old[i].is_success())
    } else if old.len() == 0 {
        new.len() == 0
    } else {
        let last = old[old.len() - 1];
        let rest = old.subrange(0, old.len() - 1);
        if last.is_success() {
            steps_filtered(rest, new, false)
        } else {
            &&& new.len() > 0
            &&& last.filtered_to(new[new.len() - 1], false)
            &&& steps_filtered(rest, new.subrange(0, new.len() - 1), false)
        }
    }
}


/// A step of an entry is structurally smaller than the entry.
pub(crate) proof fn lemma_step_decreases(log: CheckLog, i: int)
    requires
        0 <= i < log.steps().len(),
    ensures
        decreases_to!(log => log.steps()[i]),
{
    match log {
        CheckLog::Simplify { steps, .. } => assert(decreases_to!(log => steps@[i])),
        CheckLog::Proving { steps, .. } => assert(decreases_to!(log => steps@[i])),
        CheckLog::Inference { steps, .. } => assert(decreases_to!(log => steps@[i])),
        CheckLog::VariableInference { steps, .. } => assert(decreases_to!(log => steps@[i])),
        CheckLog::Inhabitable { steps, .. } => assert(decreases_to!(log => steps@[i])),
        CheckLog::Universe { steps, .. } => assert(decreases_to!(log => steps@[i])),
        CheckLog::Subtype { steps, .. } => assert(decreases_to!(log => steps@[i])),
        CheckLog::HasType { steps, .. } => assert(decreases_to!(log => steps@[i])),
        CheckLog::Equality { steps, .. } => assert(decreases_to!(log => steps@[i])),
        CheckLog::Strategy { steps, .. } => assert(decreases_to!(log => steps@[i])),
        CheckLog::Rule { steps, .. } => assert(decreases_to!(log => steps@[i])),
        _ => {},
    }
}

impl CheckLog {
    /// Whether this entry has sub-steps (every entry but a bare message).
    pub fn has_steps_exec(&self) -> (r: bool)
        ensures
            r == self.has_steps(),
    {
        match self {
            CheckLog::Comment(_) | CheckLog::Emph(_) | CheckLog::Header(_) | CheckLog::Fail(_) => false,
            _ => true,
        }
    }

    /// Splits an entry into its steps and the entry without them.
    fn take_steps(self) -> (r: (CheckLog, Vec<CheckLog>))
        ensures
            self.has_steps() ==> self.same_except_steps(r.0),
            r.0.has_steps() == self.has_steps(),
            r.1@ == self.steps(),
            !self.has_steps() ==> r.0 == self,
    {
        match self {
            CheckLog::Simplify { term: a, steps, context, result } => (CheckLog::Simplify { term: a, steps: Vec::new(), context, result }, steps),
            CheckLog::Proving { term: a, steps, context, result } => (CheckLog::Proving { term: a, steps: Vec::new(), context, result }, steps),
            CheckLog::Inference { term: a, steps, context, result } => (CheckLog::Inference { term: a, steps: Vec::new(), context, result }, steps),
            CheckLog::VariableInference { var: a, steps, context, result } => (CheckLog::VariableInference { var: a, steps: Vec::new(), context, result }, steps),
            CheckLog::Inhabitable { term: a, steps, context, result } => (CheckLog::Inhabitable { term: a, steps: Vec::new(), context, result }, steps),
            CheckLog::Universe { term: a, steps, context, result } => (CheckLog::Universe { term: a, steps: Vec::new(), context, result }, steps),
            CheckLog::Subtype { sub: a, sup: b, steps, context, result } => (CheckLog::Subtype { sub: a, sup: b, steps: Vec::new(), context, result }, steps),
            CheckLog::HasType { tm: a, tp: b, steps, context, result } => (CheckLog::HasType { tm: a, tp: b, steps: Vec::new(), context, result }, steps),
            CheckLog::Equality { lhs: a, rhs: b, steps, context, result } => (CheckLog::Equality { lhs: a, rhs: b, steps: Vec::new(), context, result }, steps),
            CheckLog::Strategy { name, steps, success } => (CheckLog::Strategy { name, steps: Vec::new(), success }, steps),
            CheckLog::Rule { header, steps } => (CheckLog::Rule { header, steps: Vec::new() }, steps),
            other => (other, Vec::new()),
        }
    }

    /// The entry with its steps replaced by `steps`.
    fn with_steps(self, steps: Vec<CheckLog>) -> (r: CheckLog)
        requires
            self.has_steps(),
        ensures
            self.same_except_steps(r),
            r.has_steps(),
            r.steps() == steps@,
    {
        match self {
            CheckLog::Simplify { term: a, context, result, .. } => CheckLog::Simplify { term: a, steps, context, result },
            CheckLog::Proving { term: a, context, result, .. } => CheckLog::Proving { term: a, steps, context, result },
            CheckLog::Inference { term: a, context, result, .. } => CheckLog::Inference { term: a, steps, context, result },
            CheckLog::VariableInference { var: a, context, result, .. } => CheckLog::VariableInference { var: a, steps, context, result },
            CheckLog::Inhabitable { term: a, context, result, .. } => CheckLog::Inhabitable { term: a, steps, context, result },
            CheckLog::Universe { term: a, context, result, .. } => CheckLog::Universe { term: a, steps, context, result },
            CheckLog::Subtype { sub: a, sup: b, context, result, .. } => CheckLog::Subtype { sub: a, sup: b, steps, context, result },
            CheckLog::HasType { tm: a, tp: b, context, result, .. } => CheckLog::HasType { tm: a, tp: b, steps, context, result },
            CheckLog::Equality { lhs: a, rhs: b, context, result, .. } => CheckLog::Equality { lhs: a, rhs: b, steps, context, result },
            CheckLog::Strategy { name, success, .. } => CheckLog::Strategy { name, steps, success },
            CheckLog::Rule { header, .. } => CheckLog::Rule { header, steps },
            other => other,
        }
    }

    /// The entry filtered for failures (see `filtered_to`).
    fn into_filtered(self, preserve_siblings: bool) -> (r: CheckLog)
        ensures
            self.filtered_to(r, preserve_siblings),
        decreases self,
    {
        if !self.has_steps_exec() {
            return self;
        }
        let ghost whole = self;
        let (shell, steps) = self.take_steps();
        let ghost old_steps = steps@;
        let mut out: Vec<CheckLog> = Vec::new();
        if preserve_siblings {
            #[verifier::loop_isolation(false)]
            for x in it: steps.into_iter()
                invariant
                    old_steps == whole.steps(),
                    it.seq() == old_steps,
                    out@.len() == it.index(),
                    forall|j: int|
                        #![trigger old_steps[j]]
                        0 <= j < it.index() ==> old_steps[j].filtered_to(
                            out@[j],
                            !old_steps[j].is_success(),
                        ),
            {
                proof {
                    lemma_step_decreases(whole, it.index() as int);
                    assert(x == old_steps[it.index() as int]);
                }
                let ok = x.success();
                let y = x.into_filtered(!ok);
                out.push(y);
            }
        } else {
            #[verifier::loop_isolation(false)]
            for x in it: steps.into_iter()
                invariant
                    old_steps == whole.steps(),
                    it.seq() == old_steps,
                    steps_filtered(old_steps.take(it.index() as int), out@, false),
            {
                let ghost k = it.index() as int;
                let ghost prev = out@;
                proof {
                    lemma_step_decreases(whole, k);
                    assert(x == old_steps[k]);
                    assert(old_steps.take(k + 1).subrange(0, k) =~= old_steps.take(k));
                }
                if !x.success() {
                    let y = x.into_filtered(false);
                    out.push(y);
                    assert(out@.subrange(0, out@.len() - 1) =~= prev);
                }
            }
            assert(old_steps.take(old_steps.len() as int) =~= old_steps);
        }
        shell.with_steps(out)
    }

    /// Drops the successful parts of the log, keeping what explains the
    /// failures. With `preserve_siblings`, the steps of this entry are all
    /// kept; without, only its failed steps are.
    pub fn filter_failures(&mut self, preserve_siblings: bool)
        ensures
            old(self).filtered_to(*final(self), preserve_siblings),
    {
        let mut tmp = CheckLog::Comment(Vec::new());
        std::mem::swap(self, &mut tmp);
        *self = tmp.into_filtered(preserve_siblings);
    }
}


/// Filtering a log for failures never changes whether the logged task
/// succeeded.
pub proof fn lemma_filter_keeps_success(old: CheckLog, new: CheckLog, preserve_siblings: bool)
    requires
        old.filtered_to(new, preserve_siblings),
    ensures
        new.is_success() == old.is_success(),
    decreases old,
{
    if old.has_steps() {
        let os = old.steps();
        let ns = new.steps();
        if preserve_siblings {
            assert forall|i: int| 0 <= i < os.len() implies ns[i].is_success() == os[i].is_success() by {
                lemma_step_decreases(old, i);
                lemma_filter_keeps_success(os[i], ns[i], !os[i].is_success());
            }
        } else {
            lemma_filtered_steps_fail(old, os, ns);
        }
        if let CheckLog::Rule { steps, .. } = old {
            if let CheckLog::Rule { steps: nsteps, .. } = new {
                if !preserve_siblings {
                    if old.is_success() {
                        assert(ns.len() == 0);
                    } else {
                        let i = choose|i: int| 0 <= i < steps@.len() && !(#[trigger] steps@[i]).is_success();
                        assert(!os[i].is_success());
                        assert(ns.len() > 0);
                        assert(!nsteps@[0].is_success());
                    }
                }
            }
        }
    }
}

/// Filtering steps without keeping siblings leaves failed steps only, and
/// leaves none exactly when every step succeeded.
proof fn lemma_filtered_steps_fail(whole: CheckLog, old: Seq<CheckLog>, new: Seq<CheckLog>)
    requires
        steps_filtered(old, new, false),
        old.len() <= whole.steps().len(),
        forall|i: int| 0 <= i < old.len() ==> old[i] == #[trigger] whole.steps()[i],
    ensures
        forall|j: int| 0 <= j < new.len() ==> !(#[trigger] new[j]).is_success(),
        new.len() == 0 <==> forall|i: int| 0 <= i < old.len() ==> (#[trigger] old[i]).is_success(),
    decreases whole, old.len(),
{
    if old.len() > 0 {
        let k = old.len() - 1;
        let last = old[k];
        let rest = old.subrange(0, k);
        assert forall|i: int| 0 <= i < rest.len() implies rest[i] == #[trigger] whole.steps()[i] by {
            assert(rest[i] == old[i]);
        }
        lemma_step_decreases(whole, k);
        if last.is_success() {
            lemma_filtered_steps_fail(whole, rest, new);
            assert forall|i: int| 0 <= i < old.len() && (forall|i2: int| 0 <= i2 < rest.len() ==> (#[trigger] rest[i2]).is_success()) implies (#[trigger] old[i]).is_success() by {
                if i < k {
                    assert(rest[i] == old[i]);
                }
            }
            assert forall|i: int| 0 <= i < rest.len() && (forall|i2: int| 0 <= i2 < old.len() ==> (#[trigger] old[i2]).is_success()) implies (#[trigger] rest[i]).is_success() by {
                assert(rest[i] == old[i]);
            }
        } else {
            let nrest = new.subrange(0, new.len() - 1);
            lemma_filtered_steps_fail(whole, rest, nrest);
            lemma_filter_keeps_success(last, new[new.len() - 1], false);
            assert forall|j: int| 0 <= j < new.len() implies !(#[trigger] new[j]).is_success() by {
                if j < new.len() - 1 {
                    assert(new[j] == nrest[j]);
                }
            }
        }
    }
}

/// Filtering without keeping siblings leaves no successful step behind.
pub proof fn lemma_filter_leaves_failures(old: CheckLog, new: CheckLog)
    requires
        old.filtered_to(new, false),
    ensures
        forall|j: int| 0 <= j < new.steps().len() ==> !(#[trigger] new.steps()[j]).is_success(),
{
    if old.has_steps() {
        lemma_filtered_steps_fail(old, old.steps(), new.steps());
    }
}

/// Filtering keeping siblings keeps every step.
pub proof fn lemma_filter_keeps_siblings(old: CheckLog, new: CheckLog)
    requires
        old.filtered_to(new, true),
    ensures
        new.steps().len() == old.steps().len(),
{
}

/// Filtering is idempotent: a filtered log filters to itself.
pub proof fn lemma_filter_idempotent(old: CheckLog, new: CheckLog, preserve_siblings: bool)
    requires
        old.filtered_to(new, preserve_siblings),
    ensures
        new.filtered_to(new, preserve_siblings),
    decreases old,
{
    if old.has_steps() {
        let os = old.steps();
        let ns = new.steps();
        if preserve_siblings {
            assert forall|i: int|
                #![trigger ns[i]]
                0 <= i < ns.len() implies ns[i].filtered_to(ns[i], !ns[i].is_success()) by {
                lemma_step_decreases(old, i);
                lemma_filter_keeps_success(os[i], ns[i], !os[i].is_success());
                lemma_filter_idempotent(os[i], ns[i], !os[i].is_success());
            }
        } else {
            lemma_steps_filter_idempotent(old, os, ns);
        }
    }
}

proof fn lemma_steps_filter_idempotent(whole: CheckLog, old: Seq<CheckLog>, new: Seq<CheckLog>)
    requires
        steps_filtered(old, new, false),
        old.len() <= whole.steps().len(),
        forall|i: int| 0 <= i < old.len() ==> old[i] == #[trigger] whole.steps()[i],
    ensures
        steps_filtered(new, new, false),
    decreases whole, old.len(),
{
    if old.len() > 0 {
        let k = old.len() - 1;
        let last = old[k];
        let rest = old.subrange(0, k);
        assert forall|i: int| 0 <= i < rest.len() implies rest[i] == #[trigger] whole.steps()[i] by {
            assert(rest[i] == old[i]);
        }
        lemma_step_decreases(whole, k);
        if last.is_success() {
            lemma_steps_filter_idempotent(whole, rest, new);
        } else {
            let y = new[new.len() - 1];
            let nrest = new.subrange(0, new.len() - 1);
            lemma_steps_filter_idempotent(whole, rest, nrest);
            lemma_filter_keeps_success(last, y, false);
            lemma_filter_idempotent(last, y, false);
        }
    }
}


/// `a` and `b` are the same log in every part: the same task, context and
/// outcome (or the same message), and step for step the same steps.
pub open spec fn same_log(a: CheckLog, b: CheckLog) -> bool
    decreases a,
    via same_log_decreases
{
    if a.has_steps() {
        &&& a.same_except_steps(b)
        &&& b.has_steps()
        &&& a.steps().len() == b.steps().len()
        &&& forall|i: int| 0 <= i < a.steps().len() ==> same_log(a.steps()[i], #[trigger] b.steps()[i])
    } else {
        b == a
    }
}

#[via_fn]
proof fn same_log_decreases(a: CheckLog, b: CheckLog) {
    if a.has_steps() {
        assert forall|i: int| 0 <= i < a.steps().len() implies decreases_to!(a => a.steps()[i]) by {
            lemma_step_decreases(a, i);
        }
    }
}

/// Filtering a log has one outcome: two logs that both are `old` filtered
/// the same way are the same log.
pub proof fn lemma_filter_deterministic(old: CheckLog, a: CheckLog, b: CheckLog, preserve_siblings: bool)
    requires
        old.filtered_to(a, preserve_siblings),
        old.filtered_to(b, preserve_siblings),
    ensures
        same_log(a, b),
    decreases old,
{
    if old.has_steps() {
        let os = old.steps();
        if preserve_siblings {
            assert forall|i: int| 0 <= i < a.steps().len() implies same_log(a.steps()[i], #[trigger] b.steps()[i]) by {
                lemma_step_decreases(old, i);
                lemma_filter_deterministic(os[i], a.steps()[i], b.steps()[i], !os[i].is_success());
            }
        } else {
            lemma_steps_filter_deterministic(old, os, a.steps(), b.steps());
        }
    }
}

proof fn lemma_steps_filter_deterministic(
    whole: CheckLog,
    old: Seq<CheckLog>,
    a: Seq<CheckLog>,
    b: Seq<CheckLog>,
)
    requires
        steps_filtered(old, a, false),
        steps_filtered(old, b, false),
        old.len() <= whole.steps().len(),
        forall|i: int| 0 <= i < old.len() ==> old[i] == #[trigger] whole.steps()[i],
    ensures
        a.len() == b.len(),
        forall|i: int| 0 <= i < a.len() ==> same_log(a[i], #[trigger] b[i]),
    decreases whole, old.len(),
{
    if old.len() > 0 {
        let k = old.len() - 1;
        let rest = old.subrange(0, k);
        assert forall|i: int| 0 <= i < rest.len() implies rest[i] == #[trigger] whole.steps()[i] by {
            assert(rest[i] == old[i]);
        }
        lemma_step_decreases(whole, k);
        if old[k].is_success() {
            lemma_steps_filter_deterministic(whole, rest, a, b);
        } else {
            let ar = a.subrange(0, a.len() - 1);
            let br = b.subrange(0, b.len() - 1);
            lemma_steps_filter_deterministic(whole, rest, ar, br);
            lemma_filter_deterministic(old[k], a[a.len() - 1], b[b.len() - 1], false);
            assert forall|i: int| 0 <= i < a.len() implies same_log(a[i], #[trigger] b[i]) by {
                if i < a.len() - 1 {
                    assert(a[i] == ar[i] && b[i] == br[i]);
                }
            }
        }
    }
}

/// Filtering a filtered log again the same way gives the same log back.
pub proof fn lemma_filter_twice(old: CheckLog, once: CheckLog, twice: CheckLog, preserve_siblings: bool)
    requires
        old.filtered_to(once, preserve_siblings),
        once.filtered_to(twice, preserve_siblings),
    ensures
        same_log(once, twice),
{
    lemma_filter_idempotent(old, once, preserve_siblings);
    lemma_filter_deterministic(once, once, twice, preserve_siblings);
}

/// `new` is `old` with steps deleted at any depth: a bare message is kept
/// as it is; otherwise the task, context and outcome are kept, and the
/// steps that remain are some of the old ones, in their order, each pruned
/// in turn.
pub open spec fn pruned_of(old: CheckLog, new: CheckLog) -> bool
    decreases old,
{
    if old.has_steps() {
        old.same_except_steps(new) && steps_pruned(old.steps(), new.steps())
    } else {
        new == old
    }
}

/// `new` keeps some of the steps `old`, in their order, each pruned.
pub open spec fn steps_pruned(old: Seq<CheckLog>, new: Seq<CheckLog>) -> bool
    decreases old,
{
    if new.len() == 0 {
        true
    } else if old.len() == 0 {
        false
    } else {
        let ol = old.subrange(0, old.len() - 1);
        ||| steps_pruned(ol, new)
        ||| (pruned_of(old[old.len() - 1], new[new.len() - 1]) && steps_pruned(
            ol,
            new.subrange(0, new.len() - 1),
        ))
    }
}

/// Filtering only deletes steps: it keeps every task, context, outcome and
/// message, and the order of what it keeps.
pub proof fn lemma_filter_only_deletes(old: CheckLog, new: CheckLog, preserve_siblings: bool)
    requires
        old.filtered_to(new, preserve_siblings),
    ensures
        pruned_of(old, new),
    decreases old, 1int,
{
    if old.has_steps() {
        lemma_steps_filter_only_deletes(old, old.steps(), new.steps(), preserve_siblings);
    }
}

proof fn lemma_steps_filter_only_deletes(
    whole: CheckLog,
    old: Seq<CheckLog>,
    new: Seq<CheckLog>,
    preserve_siblings: bool,
)
    requires
        steps_filtered(old, new, preserve_siblings),
        old.len() <= whole.steps().len(),
        forall|i: int| 0 <= i < old.len() ==> old[i] == #[trigger] whole.steps()[i],
    ensures
        steps_pruned(old, new),
    decreases whole, 0int, old.len(),
{
    if old.len() > 0 {
        let k = old.len() - 1;
        let rest = old.subrange(0, k);
        assert forall|i: int| 0 <= i < rest.len() implies rest[i] == #[trigger] whole.steps()[i] by {
            assert(rest[i] == old[i]);
        }
        lemma_step_decreases(whole, k);
        if preserve_siblings {
            let nrest = new.subrange(0, k);
            assert(steps_filtered(rest, nrest, true)) by {
                assert forall|i: int|
                    #![trigger rest[i], nrest[i]]
                    0 <= i < rest.len() implies rest[i].filtered_to(nrest[i], !rest[i].is_success()) by {
                    assert(rest[i] == old[i] && nrest[i] == new[i]);
                }
            }
            lemma_steps_filter_only_deletes(whole, rest, nrest, true);
            lemma_filter_only_deletes(old[k], new[k], !old[k].is_success());
        } else if old[k].is_success() {
            lemma_steps_filter_only_deletes(whole, rest, new, false);
            lemma_steps_pruned_drop(old, new);
        } else {
            let nrest = new.subrange(0, new.len() - 1);
            lemma_steps_filter_only_deletes(whole, rest, nrest, false);
            lemma_filter_only_deletes(old[k], new[new.len() - 1], false);
        }
    }
}

/// Where the steps `new` are pruned from all but the last of `old`, they
/// are pruned from `old` too.
proof fn lemma_steps_pruned_drop(old: Seq<CheckLog>, new: Seq<CheckLog>)
    requires
        old.len() > 0,
        steps_pruned(old.subrange(0, old.len() - 1), new),
    ensures
        steps_pruned(old, new),
{
}


/// Filtering a filtered log without keeping siblings comes to filtering
/// the first log without keeping siblings.
pub proof fn lemma_filter_then_without_siblings(x: CheckLog, y: CheckLog, z: CheckLog, q: bool)
    requires
        x.filtered_to(y, q),
        y.filtered_to(z, false),
    ensures
        x.filtered_to(z, false),
    decreases x, 1int,
{
    if x.has_steps() {
        lemma_steps_filter_then_without_siblings(x, x.steps(), y.steps(), z.steps(), q);
    }
}

proof fn lemma_steps_filter_then_without_siblings(
    whole: CheckLog,
    xs: Seq<CheckLog>,
    ys: Seq<CheckLog>,
    zs: Seq<CheckLog>,
    q: bool,
)
    requires
        steps_filtered(xs, ys, q),
        steps_filtered(ys, zs, false),
        xs.len() <= whole.steps().len(),
        forall|i: int| 0 <= i < xs.len() ==> xs[i] == #[trigger] whole.steps()[i],
    ensures
        steps_filtered(xs, zs, false),
    decreases whole, 0int, xs.len(),
{
    if xs.len() > 0 {
        let k = xs.len() - 1;
        let xr = xs.subrange(0, k);
        assert forall|i: int| 0 <= i < xr.len() implies xr[i] == #[trigger] whole.steps()[i] by {
            assert(xr[i] == xs[i]);
        }
        lemma_step_decreases(whole, k);
        let xl = xs[k];
        if q {
            let yl = ys[k];
            let yr = ys.subrange(0, k);
            assert(steps_filtered(xr, yr, true)) by {
                assert forall|i: int|
                    #![trigger xr[i], yr[i]]
                    0 <= i < xr.len() implies xr[i].filtered_to(yr[i], !xr[i].is_success()) by {
                    assert(xr[i] == xs[i] && yr[i] == ys[i]);
                }
            }
            lemma_filter_keeps_success(xl, yl, !xl.is_success());
            if yl.is_success() {
                lemma_steps_filter_then_without_siblings(whole, xr, yr, zs, true);
            } else {
                let zr = zs.subrange(0, zs.len() - 1);
                lemma_steps_filter_then_without_siblings(whole, xr, yr, zr, true);
                lemma_filter_then_without_siblings(xl, yl, zs[zs.len() - 1], !xl.is_success());
            }
        } else if xl.is_success() {
            lemma_steps_filter_then_without_siblings(whole, xr, ys, zs, false);
        } else {
            let yl = ys[ys.len() - 1];
            let yr = ys.subrange(0, ys.len() - 1);
            lemma_filter_keeps_success(xl, yl, false);
            let zr = zs.subrange(0, zs.len() - 1);
            lemma_steps_filter_then_without_siblings(whole, xr, yr, zr, false);
            lemma_filter_then_without_siblings(xl, yl, zs[zs.len() - 1], false);
        }
    }
}

/// Filtering keeping siblings and then without keeping them gives the same
/// log as filtering without keeping them at once.
pub proof fn lemma_siblings_then_without(old: CheckLog, kept: CheckLog, then: CheckLog, direct: CheckLog)
    requires
        old.filtered_to(kept, true),
        kept.filtered_to(then, false),
        old.filtered_to(direct, false),
    ensures
        same_log(then, direct),
{
    lemma_filter_then_without_siblings(old, kept, then, true);
    lemma_filter_deterministic(old, then, direct, false);
}

impl CheckLog {
    /// The steps of this entry, to be changed in place; `None` for a bare
    /// message.
    pub fn steps_mut(&mut self) -> (r: Option<&mut Vec<CheckLog>>)
        ensures
            r is Some <==> old(self).has_steps(),
            r matches Some(s) ==> {
                &&& s@ == old(self).steps()
                &&& old(self).same_except_steps(*final(self))
                &&& final(self).steps() == final(s)@
            },
            r is None ==> *final(self) == *old(self),
    {
        match self {
            CheckLog::Simplify { steps, .. } => Some(steps),
            CheckLog::Proving { steps, .. } => Some(steps),
            CheckLog::Inference { steps, .. } => Some(steps),
            CheckLog::VariableInference { steps, .. } => Some(steps),
            CheckLog::Inhabitable { steps, .. } => Some(steps),
            CheckLog::Universe { steps, .. } => Some(steps),
            CheckLog::Subtype { steps, .. } => Some(steps),
            CheckLog::HasType { steps, .. } => Some(steps),
            CheckLog::Equality { steps, .. } => Some(steps),
            CheckLog::Strategy { steps, .. } => Some(steps),
            CheckLog::Rule { steps, .. } => Some(steps),
            _ => None,
        }
    }
}


/// `log` is a failure message made of the one text `text`.
pub open spec fn is_failure_message(log: CheckLog, text: Seq<char>) -> bool {
    &&& log matches CheckLog::Fail(parts)
    &&& parts@.len() == 1
    &&& parts@[0] matches Displayable::String(t)
    &&& t@ == text
}

impl CheckLog {
    /// Appends a failure message with the text `s` to the steps of this
    /// entry; a bare message stays as it is.
    pub fn add_failure(&mut self, s: &'static str)
        ensures
            old(self).has_steps() ==> {
                &&& old(self).same_except_steps(*final(self))
                &&& final(self).steps().len() == old(self).steps().len() + 1
                &&& final(self).steps().subrange(0, old(self).steps().len() as int) == old(self).steps()
                &&& is_failure_message(final(self).steps().last(), s@)
            },
            !old(self).has_steps() ==> *final(self) == *old(self),
    {
        if let Some(steps) = self.steps_mut() {
            let mut parts: Vec<Displayable> = Vec::new();
            parts.push(Displayable::String(s.to_string()));
            steps.push(CheckLog::Fail(parts));
        }
    }
}


impl CheckLog {
    /// The steps of this entry; `None` for a bare message.
    pub fn steps_ref(&self) -> (r: Option<&Vec<CheckLog>>)
        ensures
            r is Some <==> self.has_steps(),
            r matches Some(v) ==> v@ == self.steps(),
    {
        match self {
            CheckLog::Simplify { steps, .. } => Some(steps),
            CheckLog::Proving { steps, .. } => Some(steps),
            CheckLog::Inference { steps, .. } => Some(steps),
            CheckLog::VariableInference { steps, .. } => Some(steps),
            CheckLog::Inhabitable { steps, .. } => Some(steps),
            CheckLog::Universe { steps, .. } => Some(steps),
            CheckLog::Subtype { steps, .. } => Some(steps),
            CheckLog::HasType { steps, .. } => Some(steps),
            CheckLog::Equality { steps, .. } => Some(steps),
            CheckLog::Strategy { steps, .. } => Some(steps),
            CheckLog::Rule { steps, .. } => Some(steps),
            _ => None,
        }
    }
}


impl CheckLog {
    /// A failure message of the one text `s`.
    pub fn failure(s: &str) -> (r: CheckLog)
        ensures
            is_failure_message(r, s@),
    {
        let mut parts: Vec<Displayable> = Vec::new();
        parts.push(Displayable::String(s.to_string()));
        CheckLog::Fail(parts)
    }
}


/// A check log while the check still runs: like `CheckLog`, but a rule is
/// kept as the pieces by which it shows itself and a message with its
/// level.
#[allow(inconsistent_fields)]
pub enum PreCheckLog {
    Simplify { term: Term, steps: Vec<PreCheckLog>, context: Vec<ComponentVar>, result: Option<Term> },
    Proving { term: Term, steps: Vec<PreCheckLog>, context: Vec<ComponentVar>, result: Option<Term> },
    Inference { term: Term, steps: Vec<PreCheckLog>, context: Vec<ComponentVar>, result: Option<Term> },
    VariableInference { var: String, steps: Vec<PreCheckLog>, context: Vec<ComponentVar>, result: Option<Term> },
    Inhabitable { term: Term, steps: Vec<PreCheckLog>, context: Vec<ComponentVar>, result: Option<bool> },
    Universe { term: Term, steps: Vec<PreCheckLog>, context: Vec<ComponentVar>, result: Option<bool> },
    Subtype { sub: Term, sup: Term, steps: Vec<PreCheckLog>, context: Vec<ComponentVar>, result: Option<bool> },
    HasType { tm: Term, tp: Term, steps: Vec<PreCheckLog>, context: Vec<ComponentVar>, result: Option<bool> },
    Equality { lhs: Term, rhs: Term, steps: Vec<PreCheckLog>, context: Vec<ComponentVar>, result: Option<bool> },
    Rule { rule: Vec<Displayable>, steps: Vec<PreCheckLog> },
    Strategy { name: String, steps: Vec<PreCheckLog>, success: bool },
    Msg(Vec<Displayable>, MessageLevel),
}

impl PreCheckLog {
    /// Every entry but a message has sub-steps.
    pub open spec fn has_steps(self) -> bool {
        !(self is Msg)
    }

    /// The sub-steps of this entry (none for a message).
    pub open spec fn steps(self) -> Seq<PreCheckLog> {
        match self {
            PreCheckLog::Simplify { steps, .. } => steps@,
            PreCheckLog::Proving { steps, .. } => steps@,
            PreCheckLog::Inference { steps, .. } => steps@,
            PreCheckLog::VariableInference { steps, .. } => steps@,
            PreCheckLog::Inhabitable { steps, .. } => steps@,
            PreCheckLog::Universe { steps, .. } => steps@,
            PreCheckLog::Subtype { steps, .. } => steps@,
            PreCheckLog::HasType { steps, .. } => steps@,
            PreCheckLog::Equality { steps, .. } => steps@,
            PreCheckLog::Rule { steps, .. } => steps@,
            PreCheckLog::Strategy { steps, .. } => steps@,
            _ => Seq::empty(),
        }
    }

    /// `self` and `other` record the same task with the same context and
    /// outcome, or are the same strategy or rule; only their steps may differ.
    pub open spec fn same_except_steps(self, other: PreCheckLog) -> bool {
        match (self, other) {
            (PreCheckLog::Simplify { term: a_term, context: c, result: r, .. }, PreCheckLog::Simplify { term: b_term, context: c2, result: r2, .. }) => a_term == b_term && c == c2 && r == r2,
            (PreCheckLog::Proving { term: a_term, context: c, result: r, .. }, PreCheckLog::Proving { term: b_term, context: c2, result: r2, .. }) => a_term == b_term && c == c2 && r == r2,
            (PreCheckLog::Inference { term: a_term, context: c, result: r, .. }, PreCheckLog::Inference { term: b_term, context: c2, result: r2, .. }) => a_term == b_term && c == c2 && r == r2,
            (PreCheckLog::VariableInference { var: a_var, context: c, result: r, .. }, PreCheckLog::VariableInference { var: b_var, context: c2, result: r2, .. }) => a_var == b_var && c == c2 && r == r2,
            (PreCheckLog::Inhabitable { term: a_term, context: c, result: r, .. }, PreCheckLog::Inhabitable { term: b_term, context: c2, result: r2, .. }) => a_term == b_term && c == c2 && r == r2,
            (PreCheckLog::Universe { term: a_term, context: c, result: r, .. }, PreCheckLog::Universe { term: b_term, context: c2, result: r2, .. }) => a_term == b_term && c == c2 && r == r2,
            (PreCheckLog::Subtype { sub: a_sub, sup: a_sup, context: c, result: r, .. }, PreCheckLog::Subtype { sub: b_sub, sup: b_sup, context: c2, result: r2, .. }) => a_sub == b_sub && a_sup == b_sup && c == c2 && r == r2,
            (PreCheckLog::HasType { tm: a_tm, tp: a_tp, context: c, result: r, .. }, PreCheckLog::HasType { tm: b_tm, tp: b_tp, context: c2, result: r2, .. }) => a_tm == b_tm && a_tp == b_tp && c == c2 && r == r2,
            (PreCheckLog::Equality { lhs: a_lhs, rhs: a_rhs, context: c, result: r, .. }, PreCheckLog::Equality { lhs: b_lhs, rhs: b_rhs, context: c2, result: r2, .. }) => a_lhs == b_lhs && a_rhs == b_rhs && c == c2 && r == r2,
            (PreCheckLog::Rule { rule: a, .. }, PreCheckLog::Rule { rule: b, .. }) => a == b,
            (PreCheckLog::Strategy { name: a, success: s, .. }, PreCheckLog::Strategy { name: b, success: s2, .. }) => a == b && s == s2,
            _ => false,
        }
    }

    /// The steps of this entry, to be changed in place; `None` for a
    /// message.
    pub fn steps_mut(&mut self) -> (r: Option<&mut Vec<PreCheckLog>>)
        ensures
            r is Some <==> old(self).has_steps(),
            r matches Some(s) ==> {
                &&& s@ == old(self).steps()
                &&& old(self).same_except_steps(*final(self))
                &&& final(self).steps() == final(s)@
            },
            r is None ==> *final(self) == *old(self),
    {
        match self {
            PreCheckLog::Simplify { steps, .. } => Some(steps),
            PreCheckLog::Proving { steps, .. } => Some(steps),
            PreCheckLog::Inference { steps, .. } => Some(steps),
            PreCheckLog::VariableInference { steps, .. } => Some(steps),
            PreCheckLog::Inhabitable { steps, .. } => Some(steps),
            PreCheckLog::Universe { steps, .. } => Some(steps),
            PreCheckLog::Subtype { steps, .. } => Some(steps),
            PreCheckLog::HasType { steps, .. } => Some(steps),
            PreCheckLog::Equality { steps, .. } => Some(steps),
            PreCheckLog::Rule { steps, .. } => Some(steps),
            PreCheckLog::Strategy { steps, .. } => Some(steps),
            _ => None,
        }
    }

    /// Appends `msg` to the steps of this entry; a message stays as it is.
    pub fn push(&mut self, msg: PreCheckLog)
        ensures
            old(self).has_steps() ==> {
                &&& old(self).same_except_steps(*final(self))
                &&& final(self).steps() == old(self).steps().push(msg)
            },
            !old(self).has_steps() ==> *final(self) == *old(self),
    {
        if let Some(steps) = self.steps_mut() {
            steps.push(msg);
        }
    }
}

/// `b` is what `terms` gives for `a`, or both are absent.
pub open spec fn opt_term_mapped<F: Fn(Term) -> Term>(terms: F, a: Option<Term>, b: Option<Term>) -> bool {
    match (a, b) {
        (Some(x), Some(y)) => call_ensures(terms, (x,), y),
        (None, None) => true,
        _ => false,
    }
}

/// `new` is `old` with each term piece replaced by what `terms` gives for
/// it, every other piece kept.
pub open spec fn parts_mapped<F: Fn(Term) -> Term>(terms: F, old: Seq<Displayable>, new: Seq<Displayable>) -> bool {
    &&& new.len() == old.len()
    &&& forall|i: int|
        #![trigger old[i], new[i]]
        0 <= i < old.len() ==> match old[i] {
            Displayable::Term(t) => new[i] matches Displayable::Term(t2) && call_ensures(terms, (t,), t2),
            _ => new[i] == old[i],
        }
}

/// `log` is the finished form of `pre`: every task keeps its context and
/// has its terms, and its produced term, replaced by what `terms` gives for
/// them; a rule shows itself by its pieces, with their terms so replaced; a
/// strategy keeps its name and outcome; a message becomes an entry of its
/// level, unchanged; and the steps are converted likewise, in order.
pub open spec fn converted<F: Fn(Term) -> Term>(pre: PreCheckLog, log: CheckLog, terms: F) -> bool
    decreases pre,
{
    match pre {
            PreCheckLog::Simplify { term: a_term, steps: s, context: c, result: r } => match log {
                CheckLog::Simplify { term: b_term, steps: s2, context: c2, result: r2 } => call_ensures(terms, (a_term,), b_term) && c2 == c && opt_term_mapped(terms, r, r2) && steps_converted(s@, s2@, terms),
                _ => false,
            },
            PreCheckLog::Proving { term: a_term, steps: s, context: c, result: r } => match log {
                CheckLog::Proving { term: b_term, steps: s2, context: c2, result: r2 } => call_ensures(terms, (a_term,), b_term) && c2 == c && opt_term_mapped(terms, r, r2) && steps_converted(s@, s2@, terms),
                _ => false,
            },
            PreCheckLog::Inference { term: a_term, steps: s, context: c, result: r } => match log {
                CheckLog::Inference { term: b_term, steps: s2, context: c2, result: r2 } => call_ensures(terms, (a_term,), b_term) && c2 == c && opt_term_mapped(terms, r, r2) && steps_converted(s@, s2@, terms),
                _ => false,
            },
            PreCheckLog::VariableInference { var: a_var, steps: s, context: c, result: r } => match log {
                CheckLog::VariableInference { var: b_var, steps: s2, context: c2, result: r2 } => b_var@ == a_var@ && c2 == c && opt_term_mapped(terms, r, r2) && steps_converted(s@, s2@, terms),
                _ => false,
            },
            PreCheckLog::Inhabitable { term: a_term, steps: s, context: c, result: r } => match log {
                CheckLog::Inhabitable { term: b_term, steps: s2, context: c2, result: r2 } => call_ensures(terms, (a_term,), b_term) && c2 == c && r2 == r && steps_converted(s@, s2@, terms),
                _ => false,
            },
            PreCheckLog::Universe { term: a_term, steps: s, context: c, result: r } => match log {
                CheckLog::Universe { term: b_term, steps: s2, context: c2, result: r2 } => call_ensures(terms, (a_term,), b_term) && c2 == c && r2 == r && steps_converted(s@, s2@, terms),
                _ => false,
            },
            PreCheckLog::Subtype { sub: a_sub, sup: a_sup, steps: s, context: c, result: r } => match log {
                CheckLog::Subtype { sub: b_sub, sup: b_sup, steps: s2, context: c2, result: r2 } => call_ensures(terms, (a_sub,), b_sub) && call_ensures(terms, (a_sup,), b_sup) && c2 == c && r2 == r && steps_converted(s@, s2@, terms),
                _ => false,
            },
            PreCheckLog::HasType { tm: a_tm, tp: a_tp, steps: s, context: c, result: r } => match log {
                CheckLog::HasType { tm: b_tm, tp: b_tp, steps: s2, context: c2, result: r2 } => call_ensures(terms, (a_tm,), b_tm) && call_ensures(terms, (a_tp,), b_tp) && c2 == c && r2 == r && steps_converted(s@, s2@, terms),
                _ => false,
            },
            PreCheckLog::Equality { lhs: a_lhs, rhs: a_rhs, steps: s, context: c, result: r } => match log {
                CheckLog::Equality { lhs: b_lhs, rhs: b_rhs, steps: s2, context: c2, result: r2 } => call_ensures(terms, (a_lhs,), b_lhs) && call_ensures(terms, (a_rhs,), b_rhs) && c2 == c && r2 == r && steps_converted(s@, s2@, terms),
                _ => false,
            },
            PreCheckLog::Rule { rule, steps: s } => match log {
                CheckLog::Rule { header, steps: s2 } => parts_mapped(terms, rule@, header@) && steps_converted(s@, s2@, terms),
                _ => false,
            },
            PreCheckLog::Strategy { name, steps: s, success } => match log {
                CheckLog::Strategy { name: n2, steps: s2, success: b2 } => n2@ == name@ && b2 == success && steps_converted(s@, s2@, terms),
                _ => false,
            },
            PreCheckLog::Msg(parts, lvl) => match lvl {
                MessageLevel::Comment => log == CheckLog::Comment(parts),
                MessageLevel::Emph => log == CheckLog::Emph(parts),
                MessageLevel::Header => log == CheckLog::Header(parts),
                MessageLevel::Failure => log == CheckLog::Fail(parts),
            },
    }
}

/// Each of `new` is the finished form of the step of `old` at its place.
pub open spec fn steps_converted<F: Fn(Term) -> Term>(old: Seq<PreCheckLog>, new: Seq<CheckLog>, terms: F) -> bool
    decreases old,
{
    &&& new.len() == old.len()
    &&& forall|i: int|
        #![trigger old[i], new[i]]
        0 <= i < old.len() ==> converted(old[i], new[i], terms)
}

fn map_parts<F: Fn(Term) -> Term>(parts: Vec<Displayable>, terms: &F) -> (r: Vec<Displayable>)
    requires
        forall|t: Term| call_requires(*terms, (t,)),
    ensures
        parts_mapped(*terms, parts@, r@),
{
    let ghost old_parts = parts@;
    let mut out: Vec<Displayable> = Vec::new();
    for d in it: parts.into_iter()
        invariant
            it.seq() == old_parts,
            forall|t: Term| call_requires(*terms, (t,)),
            out@.len() == it.index(),
            forall|j: int|
                #![trigger old_parts[j]]
                0 <= j < it.index() ==> match old_parts[j] {
                    Displayable::Term(t) => out@[j] matches Displayable::Term(t2) && call_ensures(*terms, (t,), t2),
                    _ => out@[j] == old_parts[j],
                },
    {
        let e = match d {
            Displayable::Term(t) => Displayable::Term(terms(t)),
            other => other,
        };
        out.push(e);
    }
    out
}

fn convert_steps<F: Fn(Term) -> Term>(steps: Vec<PreCheckLog>, terms: &F) -> (r: Vec<CheckLog>)
    requires
        forall|t: Term| call_requires(*terms, (t,)),
    ensures
        steps_converted(steps@, r@, *terms),
    decreases steps,
{
    let ghost old_steps = steps@;
    let ghost whole = steps;
    let mut out: Vec<CheckLog> = Vec::new();
    #[verifier::loop_isolation(false)]
    for x in it: steps.into_iter()
        invariant
            it.seq() == old_steps,
            out@.len() == it.index(),
            forall|j: int|
                #![trigger old_steps[j]]
                0 <= j < it.index() ==> converted(old_steps[j], out@[j], *terms),
    {
        proof {
            assert(x == old_steps[it.index() as int]);
            assert(decreases_to!(whole => old_steps[it.index() as int]));
        }
        out.push(CheckLog::from_pre(x, terms));
    }
    out
}

impl CheckLog {
    /// The finished form of a log taken while the check ran, with every
    /// term of a task or rule replaced by what `terms` gives for it (see
    /// `converted`).
    pub fn from_pre<F: Fn(Term) -> Term>(v: PreCheckLog, terms: &F) -> (r: CheckLog)
        requires
            forall|t: Term| call_requires(*terms, (t,)),
        ensures
            converted(v, r, *terms),
        decreases v,
    {
        match v {
            PreCheckLog::Simplify { term, steps, context, result } => {
                let term = terms(term);
                let result = match result {
                    Some(t) => Some(terms(t)),
                    None => None,
                };
                let steps = convert_steps(steps, terms);
                CheckLog::Simplify { term, steps, context, result }
            },
            PreCheckLog::Proving { term, steps, context, result } => {
                let term = terms(term);
                let result = match result {
                    Some(t) => Some(terms(t)),
                    None => None,
                };
                let steps = convert_steps(steps, terms);
                CheckLog::Proving { term, steps, context, result }
            },
            PreCheckLog::Inference { term, steps, context, result } => {
                let term = terms(term);
                let result = match result {
                    Some(t) => Some(terms(t)),
                    None => None,
                };
                let steps = convert_steps(steps, terms);
                CheckLog::Inference { term, steps, context, result }
            },
            PreCheckLog::VariableInference { var, steps, context, result } => {
                let result = match result {
                    Some(t) => Some(terms(t)),
                    None => None,
                };
                let steps = convert_steps(steps, terms);
                CheckLog::VariableInference { var, steps, context, result }
            },
            PreCheckLog::Inhabitable { term, steps, context, result } => {
                let term = terms(term);
                let steps = convert_steps(steps, terms);
                CheckLog::Inhabitable { term, steps, context, result }
            },
            PreCheckLog::Universe { term, steps, context, result } => {
                let term = terms(term);
                let steps = convert_steps(steps, terms);
                CheckLog::Universe { term, steps, context, result }
            },
            PreCheckLog::Subtype { sub, sup, steps, context, result } => {
                let sub = terms(sub);
                let sup = terms(sup);
                let steps = convert_steps(steps, terms);
                CheckLog::Subtype { sub, sup, steps, context, result }
            },
            PreCheckLog::HasType { tm, tp, steps, context, result } => {
                let tm = terms(tm);
                let tp = terms(tp);
                let steps = convert_steps(steps, terms);
                CheckLog::HasType { tm, tp, steps, context, result }
            },
            PreCheckLog::Equality { lhs, rhs, steps, context, result } => {
                let lhs = terms(lhs);
                let rhs = terms(rhs);
                let steps = convert_steps(steps, terms);
                CheckLog::Equality { lhs, rhs, steps, context, result }
            },
            PreCheckLog::Rule { rule, steps } => {
                let header = map_parts(rule, terms);
                let steps = convert_steps(steps, terms);
                CheckLog::Rule { header, steps }
            },
            PreCheckLog::Strategy { name, steps, success } => {
                let steps = convert_steps(steps, terms);
                CheckLog::Strategy { name, steps, success }
            },
            PreCheckLog::Msg(parts, MessageLevel::Comment) => CheckLog::Comment(parts),
            PreCheckLog::Msg(parts, MessageLevel::Emph) => CheckLog::Emph(parts),
            PreCheckLog::Msg(parts, MessageLevel::Header) => CheckLog::Header(parts),
            PreCheckLog::Msg(parts, MessageLevel::Failure) => CheckLog::Fail(parts),
        }
    }
}

} // verus!
