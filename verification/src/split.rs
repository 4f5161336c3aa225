use std::sync::atomic::{AtomicBool, Ordering};
use crate::trace::{is_failure_message, CheckLog};
use vstd::prelude::*;

verus! {

/// A flag that a check can raise to stop the work running beside it.
pub trait Cancellation: Default + Send + Sync {
    /// The flag can never be raised.
    spec fn never_cancelled() -> bool;

    /// Whether the flag has been raised.
    fn is_cancelled(&self) -> (r: bool)
        ensures
            Self::never_cancelled() ==> !r;

    /// Raises the flag.
    fn cancel(&self);
}

impl Cancellation for AtomicBool {
    open spec fn never_cancelled() -> bool {
        false
    }

    fn is_cancelled(&self) -> (r: bool) {
        self.load(Ordering::Acquire)
    }

    fn cancel(&self) {
        self.store(true, Ordering::Release);
    }
}

impl Cancellation for () {
    open spec fn never_cancelled() -> bool {
        true
    }

    fn is_cancelled(&self) -> (r: bool) {
        false
    }

    fn cancel(&self) {
    }
}

/// A cancellation flag of its own, and the token it was derived from, whose
/// cancellation cancels this one too.
pub struct CancelToken<'a, C: Cancellation> {
    cancelled: C,
    parent: Option<&'a CancelToken<'a, C>>,
}

impl<'a, C: Cancellation> CancelToken<'a, C> {
    /// The token this one was derived from.
    pub closed spec fn parent_token(&self) -> Option<&'a CancelToken<'a, C>> {
        self.parent
    }

    /// A fresh token of its own, derived from no other.
    pub fn new() -> (r: CancelToken<'a, C>)
        ensures
            r.parent_token() is None,
    {
        CancelToken { cancelled: C::default(), parent: None }
    }

    /// Whether this token or one it was derived from has been cancelled.
    /// When an ancestor has been, this token's own flag is raised too, so
    /// that it need not look again.
    pub fn is_cancelled(&self) -> (r: bool)
        ensures
            C::never_cancelled() ==> !r,
        decreases self,
    {
        if self.cancelled.is_cancelled() {
            return true;
        }
        match self.parent {
            Some(tk) => {
                if tk.is_cancelled() {
                    self.cancelled.cancel();
                    true
                } else {
                    false
                }
            },
            None => false,
        }
    }

    /// Cancels this token, and with it every token derived from it.
    pub fn cancel(&self) {
        self.cancelled.cancel();
    }

    /// A fresh token that is cancelled when this one is.
    pub fn derive(&self) -> (r: CancelToken<'_, C>)
        ensures
            r.parent_token() == Some(self),
    {
        CancelToken { cancelled: C::default(), parent: Some(self) }
    }
}


/// How a checker splits its work among alternatives: which cancellation
/// flags it uses, and whether it runs alternatives in parallel.
pub trait SplitStrategy: Copy + Default {
    type CancelToken: Cancellation;

    /// Whether two alternative strategies at nesting depth `depth` run in
    /// parallel (else one after the other).
    fn parallel_strategies(depth: usize) -> bool;

    /// Whether the rules that apply to a task are tried in parallel (else
    /// one after the other).
    fn parallel_split() -> bool;
}

/// Everything runs one after the other.
#[derive(Copy, Clone, Default, Debug, PartialEq, Eq)]
pub struct SingleThreadedSplit;

impl SplitStrategy for SingleThreadedSplit {
    type CancelToken = ();

    fn parallel_strategies(depth: usize) -> (r: bool)
        ensures
            !r,
    {
        false
    }

    fn parallel_split() -> (r: bool)
        ensures
            !r,
    {
        false
    }
}

/// Strategies run in parallel down to depth `DEPTH`; rules one after the
/// other.
#[derive(Copy, Clone, Default, Debug, PartialEq, Eq)]
pub struct RayonStrategiesDepth<const DEPTH: usize>;

impl<const DEPTH: usize> SplitStrategy for RayonStrategiesDepth<DEPTH> {
    type CancelToken = AtomicBool;

    fn parallel_strategies(depth: usize) -> (r: bool)
        ensures
            r == (depth <= DEPTH),
    {
        depth <= DEPTH
    }

    fn parallel_split() -> (r: bool)
        ensures
            !r,
    {
        false
    }
}

/// Strategies run in parallel; rules one after the other.
#[derive(Copy, Clone, Default, Debug, PartialEq, Eq)]
pub struct RayonStrategiesOnly;

impl SplitStrategy for RayonStrategiesOnly {
    type CancelToken = AtomicBool;

    fn parallel_strategies(depth: usize) -> (r: bool)
        ensures
            r,
    {
        true
    }

    fn parallel_split() -> (r: bool)
        ensures
            !r,
    {
        false
    }
}

/// Strategies and rules both run in parallel.
#[derive(Copy, Clone, Default, Debug, PartialEq, Eq)]
pub struct RayonSplit;

impl SplitStrategy for RayonSplit {
    type CancelToken = AtomicBool;

    fn parallel_strategies(depth: usize) -> (r: bool)
        ensures
            r,
    {
        true
    }

    fn parallel_split() -> (r: bool)
        ensures
            r,
    {
        true
    }
}

/// The message with which a split reports that no rule applied.
pub open spec fn is_no_rule_message(l: CheckLog) -> bool {
    is_failure_message(l, "No rule applicable (4)"@)
}

/// Applying `then` to `rule` may fail.
pub open spec fn failed_on<Rl, R, F: Fn(&Rl) -> Result<R, CheckLog>>(then: F, rule: &Rl) -> bool {
    exists|e: CheckLog| call_ensures(then, (rule,), Err(e))
}

/// The failure logs of a split, as the checker keeps them: a small vector
/// with room for two logs in place.
#[verifier::external_body]
pub struct SplitFailures {
    logs: smallvec::SmallVec<CheckLog, 2>,
}

/// The logs a `SplitFailures` holds, in order.
pub uninterp spec fn failure_logs(f: SplitFailures) -> Seq<CheckLog>;

/// `SmallVec::new`: a vector holding no logs.
#[verifier::external_body]
fn smallvec_new() -> (r: SplitFailures)
    ensures
        failure_logs(r) == Seq::<CheckLog>::empty(),
{
    SplitFailures { logs: smallvec::SmallVec::new() }
}

/// `SmallVec::push`: the log goes after those held already.
#[verifier::external_body]
fn smallvec_push(f: &mut SplitFailures, l: CheckLog)
    ensures
        failure_logs(*final(f)) == failure_logs(*old(f)).push(l),
{
    f.logs.push(l);
}

/// `Vec::from` on the small vector: the same logs, in the same order.
#[verifier::external_body]
fn smallvec_into_vec(f: SplitFailures) -> (r: Vec<CheckLog>)
    ensures
        r@ == failure_logs(f),
{
    f.logs.into()
}

impl SplitFailures {
    /// No failures yet.
    pub fn new() -> (r: SplitFailures)
        ensures
            failure_logs(r) == Seq::<CheckLog>::empty(),
    {
        smallvec_new()
    }

    /// Records one more failure, after the others.
    pub fn push(&mut self, l: CheckLog)
        ensures
            failure_logs(*final(self)) == failure_logs(*old(self)).push(l),
    {
        smallvec_push(self, l);
    }

    /// The failure logs, in order.
    pub fn into_vec(self) -> (r: Vec<CheckLog>)
        ensures
            r@ == failure_logs(self),
    {
        smallvec_into_vec(self)
    }
}

/// Tries the rules one after the other with `then`, which applies a rule and
/// returns its result or the log of its failure. The first result wins; if
/// every rule fails, the logs of all failures come back, in order. With no
/// rules, a single no-rule message comes back when `msg` asks for one.
pub fn split_i_st<Rl, R, F: Fn(&Rl) -> Result<R, CheckLog>>(
    msg: bool,
    rules: Vec<Rl>,
    then: F,
) -> (r: Result<R, SplitFailures>)
    requires
        forall|i: int| 0 <= i < rules@.len() ==> call_requires(then, (&rules@[i],)),
    ensures
        rules@.len() == 0 ==> (r matches Err(v) && (if msg {
            failure_logs(v).len() == 1 && is_no_rule_message(failure_logs(v)[0])
        } else {
            failure_logs(v).len() == 0
        })),
        rules@.len() > 0 ==> match r {
            Ok(x) => exists|k: int|
                #![trigger rules@[k]]
                0 <= k < rules@.len() && call_ensures(then, (&rules@[k],), Ok(x)) && forall|j: int|
                    0 <= j < k ==> #[trigger] failed_on(then, &rules@[j]),
            Err(v) => failure_logs(v).len() == rules@.len() && forall|i: int|
                0 <= i < rules@.len() ==> call_ensures(then, (&rules@[i],), Err(failure_logs(v)[i])),
        },
{
    if rules.len() == 0 {
        let mut none = SplitFailures::new();
        if msg {
            none.push(CheckLog::failure("No rule applicable (4)"));
        }
        return Err(none);
    }
    let mut failures = SplitFailures::new();
    let mut i: usize = 0;
    while i < rules.len()
        invariant
            i <= rules@.len(),
            rules@.len() > 0,
            forall|j: int| 0 <= j < rules@.len() ==> call_requires(then, (&rules@[j],)),
            failure_logs(failures).len() == i,
            forall|j: int| 0 <= j < i ==> call_ensures(then, (&rules@[j],), Err(failure_logs(failures)[j])),
        decreases rules@.len() - i,
    {
        match then(&rules[i]) {
            Ok(x) => {
                assert forall|j: int| 0 <= j < i implies #[trigger] failed_on(then, &rules@[j]) by {
                    assert(call_ensures(then, (&rules@[j],), Err(failure_logs(failures)[j])));
                }
                let ghost k = i as int;
                assert(call_ensures(then, (&rules@[k],), Ok(x)));
                return Ok(x);
            },
            Err(l) => {
                let ghost prev = failure_logs(failures);
                failures.push(l);
                assert(forall|j: int| 0 <= j < i ==> failure_logs(failures)[j] == prev[j]);
            },
        }
        i = i + 1;
    }
    Err(failures)
}

/// The no-rule message of a split that runs its rules in parallel.
pub open spec fn is_parallel_no_rule_message(l: CheckLog) -> bool {
    is_failure_message(l, "No rule applicable (5)"@)
}

/// What a split that runs its rules in parallel gives when there are no
/// rules: its no-rule message when `msg` asks for one, else no failures.
pub fn no_rule_failures_mt(msg: bool) -> (r: SplitFailures)
    ensures
        if msg {
            failure_logs(r).len() == 1 && is_parallel_no_rule_message(failure_logs(r)[0])
        } else {
            failure_logs(r).len() == 0
        },
{
    let mut none = SplitFailures::new();
    if msg {
        none.push(CheckLog::failure("No rule applicable (5)"));
    }
    none
}

/// Two alternatives tried side by side: the first one's result if it has
/// one, else the second one's; when both failed, both failure logs, the
/// first one's first.
pub fn combine_pair<R>(a: Result<R, CheckLog>, b: Result<R, CheckLog>) -> (r: Result<R, SplitFailures>)
    ensures
        match (a, b) {
            (Ok(x), _) => r == Ok::<R, SplitFailures>(x),
            (Err(_), Ok(y)) => r == Ok::<R, SplitFailures>(y),
            (Err(l1), Err(l2)) => r matches Err(f) && failure_logs(f) == seq![l1, l2],
        },
{
    match (a, b) {
        (Ok(x), _) => Ok(x),
        (Err(_), Ok(y)) => Ok(y),
        (Err(l1), Err(l2)) => {
            let mut f = SplitFailures::new();
            f.push(l1);
            f.push(l2);
            assert(failure_logs(f) =~= seq![l1, l2]);
            Err(f)
        },
    }
}

/// The failure logs among `outcomes`, in order.
pub open spec fn failures_in<R>(outcomes: Seq<Result<R, CheckLog>>) -> Seq<CheckLog>
    decreases outcomes.len(),
{
    if outcomes.len() == 0 {
        Seq::empty()
    } else {
        let prev = failures_in(outcomes.drop_last());
        match outcomes.last() {
            Ok(_) => prev,
            Err(l) => prev.push(l),
        }
    }
}

/// The outcomes of rules tried in parallel, in the order they came in: the
/// result that came in last, if any did; else every failure log, in order.
pub fn collect_outcomes<R>(outcomes: Vec<Result<R, CheckLog>>) -> (r: Result<R, SplitFailures>)
    ensures
        (forall|i: int| 0 <= i < outcomes@.len() ==> (#[trigger] outcomes@[i]) is Err) ==> (r matches Err(
            f,
        ) && failure_logs(f) == failures_in(outcomes@)),
        r matches Ok(x) ==> exists|k: int|
            0 <= k < outcomes@.len() && #[trigger] outcomes@[k] == Ok::<R, CheckLog>(x) && forall|j: int|
                k < j < outcomes@.len() ==> (#[trigger] outcomes@[j]) is Err,
        r is Err ==> forall|i: int| 0 <= i < outcomes@.len() ==> (#[trigger] outcomes@[i]) is Err,
{
    let ghost all = outcomes@;
    let mut result: Option<R> = None;
    let mut failures = SplitFailures::new();
    for o in it: outcomes.into_iter()
        invariant
            it.seq() == all,
            failure_logs(failures) == failures_in(all.take(it.index() as int)),
            result is None <==> forall|i: int| 0 <= i < it.index() ==> (#[trigger] all[i]) is Err,
            result matches Some(x) ==> exists|k: int|
                0 <= k < it.index() && #[trigger] all[k] == Ok::<R, CheckLog>(x) && forall|j: int|
                    k < j < it.index() ==> (#[trigger] all[j]) is Err,
    {
        let ghost n = it.index() as int;
        proof {
            assert(all.take(n + 1).drop_last() =~= all.take(n));
            assert(all.take(n + 1).last() == all[n]);
        }
        match o {
            Ok(x) => {
                result = Some(x);
            },
            Err(l) => {
                failures.push(l);
            },
        }
    }
    proof {
        assert(all.take(all.len() as int) =~= all);
    }
    match result {
        Some(x) => Ok(x),
        None => Err(failures),
    }
}

/// How a split that runs its rules in parallel ends, from the number of
/// its rules and the outcomes it got: with no rules, its no-rule message
/// when `msg` asks for one; with one rule, that rule's outcome; with two,
/// their outcomes in rule order, the first one's result winning (as
/// `combine_pair`); with more, the outcomes in the order they came in (as
/// `collect_outcomes`).
pub fn parallel_split_result<R>(msg: bool, rules: usize, outcomes: Vec<Result<R, CheckLog>>) -> (r: Result<
    R,
    SplitFailures,
>)
    ensures
        rules == 0 ==> (r matches Err(f) && if msg {
            failure_logs(f).len() == 1 && is_parallel_no_rule_message(failure_logs(f)[0])
        } else {
            failure_logs(f).len() == 0
        }),
        rules == 1 && outcomes@.len() == 1 ==> match outcomes@[0] {
            Ok(x) => r == Ok::<R, SplitFailures>(x),
            Err(l) => r matches Err(f) && failure_logs(f) == seq![l],
        },
        rules == 2 && outcomes@.len() == 2 ==> match (outcomes@[0], outcomes@[1]) {
            (Ok(x), _) => r == Ok::<R, SplitFailures>(x),
            (Err(_), Ok(y)) => r == Ok::<R, SplitFailures>(y),
            (Err(l1), Err(l2)) => r matches Err(f) && failure_logs(f) == seq![l1, l2],
        },
        (rules > 2 || (rules > 0 && outcomes@.len() != rules)) ==> {
            &&& (forall|i: int| 0 <= i < outcomes@.len() ==> (#[trigger] outcomes@[i]) is Err) ==> (r matches Err(
                f,
            ) && failure_logs(f) == failures_in(outcomes@))
            &&& r matches Ok(x) ==> exists|k: int|
                0 <= k < outcomes@.len() && #[trigger] outcomes@[k] == Ok::<R, CheckLog>(x) && forall|j: int|
                    k < j < outcomes@.len() ==> (#[trigger] outcomes@[j]) is Err
            &&& r is Err ==> forall|i: int| 0 <= i < outcomes@.len() ==> (#[trigger] outcomes@[i]) is Err
        },
{
    if rules == 0 {
        return Err(no_rule_failures_mt(msg));
    }
    if rules <= 2 && outcomes.len() == rules {
        let mut outcomes = outcomes;
        if rules == 1 {
            let o = outcomes.pop().unwrap();
            return match o {
                Ok(x) => Ok(x),
                Err(l) => {
                    let mut f = SplitFailures::new();
                    f.push(l);
                    assert(failure_logs(f) =~= seq![l]);
                    Err(f)
                },
            };
        }
        let b = outcomes.pop().unwrap();
        let a = outcomes.pop().unwrap();
        return combine_pair(a, b);
    }
    collect_outcomes(outcomes)
}

/// Reports the failures of a split in `msgs` and gives its result, if any.
pub fn report_split<R>(msgs: &mut Vec<CheckLog>, result: Result<R, SplitFailures>) -> (r: Option<R>)
    ensures
        match result {
            Ok(x) => r == Some(x) && final(msgs)@ == old(msgs)@,
            Err(ls) => r is None && final(msgs)@ == old(msgs)@ + failure_logs(ls),
        },
{
    match result {
        Ok(x) => Some(x),
        Err(ls) => {
            let logs = ls.into_vec();
            let ghost start = msgs@;
            let ghost all = logs@;
            for e in it: logs.into_iter()
                invariant
                    it.seq() == all,
                    msgs@ == start + all.take(it.index() as int),
            {
                proof {
                    assert(all.take(it.index() + 1) =~= all.take(it.index() as int).push(e));
                }
                msgs.push(e);
            }
            assert(all.take(all.len() as int) =~= all);
            None
        },
    }
}

/// Tries the rules one after the other (see `split_i_st`); on failure the
/// failure logs are reported in `msgs` and there is no result.
pub fn split<Rl, R, F: Fn(&Rl) -> Result<R, CheckLog>>(
    msgs: &mut Vec<CheckLog>,
    msg: bool,
    rules: Vec<Rl>,
    then: F,
) -> (r: Option<R>)
    requires
        forall|i: int| 0 <= i < rules@.len() ==> call_requires(then, (&rules@[i],)),
    ensures
        match r {
            Some(x) => final(msgs)@ == old(msgs)@ && exists|k: int|
                0 <= k < rules@.len() && call_ensures(then, (&rules@[k],), Ok(x)),
            None => {
                &&& rules@.len() == 0 ==> if msg {
                    final(msgs)@.len() == old(msgs)@.len() + 1 && final(msgs)@.subrange(0, old(msgs)@.len() as int) == old(msgs)@
                        && is_no_rule_message(final(msgs)@.last())
                } else {
                    final(msgs)@ == old(msgs)@
                }
                &&& rules@.len() > 0 ==> final(msgs)@.len() == old(msgs)@.len() + rules@.len()
                    && final(msgs)@.subrange(0, old(msgs)@.len() as int) == old(msgs)@
                    && forall|i: int|
                    0 <= i < rules@.len() ==> call_ensures(
                        then,
                        (&rules@[i],),
                        Err(#[trigger] final(msgs)@[old(msgs)@.len() + i]),
                    )
            },
        },
{
    let ghost rs = rules@;
    let ghost start = msgs@;
    let res = split_i_st(msg, rules, then);
    let ghost res_copy = res;
    let r = report_split(msgs, res);
    proof {
        if let Err(v) = res_copy {
            assert(msgs@.subrange(0, start.len() as int) =~= start);
            if rs.len() > 0 {
                assert forall|i: int| 0 <= i < rs.len() implies call_ensures(
                    then,
                    (&rs[i],),
                    Err(#[trigger] msgs@[start.len() + i]),
                ) by {
                    assert(msgs@[start.len() + i] == failure_logs(v)[i]);
                }
            }
        }
    }
    r
}

/// Tries strategy `oper_a`, and if it fails strategy `oper_b`. When both
/// fail, both failure logs are reported in `msgs`, `oper_a`'s first, and
/// there is no result.
pub fn strategies_st<R, A: FnOnce() -> Result<R, CheckLog>, B: FnOnce() -> Result<R, CheckLog>>(
    msgs: &mut Vec<CheckLog>,
    oper_a: A,
    oper_b: B,
) -> (r: Option<R>)
    requires
        call_requires(oper_a, ()),
        call_requires(oper_b, ()),
    ensures
        match r {
            Some(x) => final(msgs)@ == old(msgs)@ && (call_ensures(oper_a, (), Ok(x)) || (exists|
                l: CheckLog,
            | call_ensures(oper_a, (), Err(l))) && call_ensures(oper_b, (), Ok(x))),
            None => exists|l1: CheckLog, l2: CheckLog|
                call_ensures(oper_a, (), Err(l1)) && call_ensures(oper_b, (), Err(l2))
                    && final(msgs)@ == old(msgs)@.push(l1).push(l2),
        },
{
    let l1 = match oper_a() {
        Ok(x) => return Some(x),
        Err(l) => l,
    };
    match oper_b() {
        Ok(x) => Some(x),
        Err(l2) => {
            msgs.push(l1);
            msgs.push(l2);
            None
        },
    }
}

} // verus!
