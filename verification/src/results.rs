use crate::trace::{lemma_filter_deterministic, lemma_filter_idempotent, same_log, CheckLog, Term, Uri};
use vstd::prelude::*;

verus! {

/// The outcome of checking a type or a typing judgement, with its log.
pub struct TypeCheckResult {
    pub success: bool,
    pub log: CheckLog,
}

/// The outcome of checking a symbol (or a variable): its type alone, its
/// definiens alone, or both the type and whether the definiens matches it.
pub enum SymbolCheckResult {
    TypeOnly { result: TypeCheckResult },
    DefiniensOnly { inferred: Option<Term>, log: CheckLog },
    Both { inhabitable: TypeCheckResult, matches: Option<TypeCheckResult> },
}

/// The outcome of checking a proof step: its goal alone, its proof alone,
/// or both the goal and whether the proof proves it.
pub enum ProofStepCheckResult {
    GoalOnly { result: TypeCheckResult },
    ProofOnly { inferred: Option<Term>, log: CheckLog },
    Both { inhabitable: TypeCheckResult, matches: Option<TypeCheckResult> },
}

/// The outcome of checking a declaration of a module.
pub enum ContentCheckResult {
    Symbol(Uri, SymbolCheckResult),
}

/// The outcome of checking one step of a proof; a subproof holds the
/// outcomes of its own steps.
pub enum ProofStepResult {
    Assumption { var: Option<Uri>, result: ProofStepCheckResult },
    Conclusion { var: Option<Uri>, result: ProofStepCheckResult },
    Step { var: Option<Uri>, result: ProofStepCheckResult },
    Subproof { uri: Uri, var: Option<Uri>, results: Vec<ProofStepResult> },
}

/// The outcome of checking one element of a document.
pub enum CheckResult {
    Module { uri: Uri, checks: Vec<ContentCheckResult> },
    Variable(Uri, SymbolCheckResult),
    Proof(Uri, Vec<ProofStepResult>),
    Term { uri: Uri, inferred: Option<Term>, log: CheckLog },
    Content(ContentCheckResult),
    Missing(Uri),
}

/// The outcome of checking a whole document.
pub struct DocumentCheckResult {
    pub uri: Uri,
    pub checks: Vec<CheckResult>,
}

/// `new` is what filtering the list `old` for failures gives, where `ok`
/// says whether an element succeeded and `rel(a, b, q)` that `b` is `a`
/// filtered with `q` for keeping siblings. Keeping siblings, every element
/// stays, a successful one filtered without keeping siblings, a failed one
/// keeping them. Otherwise only the failed elements stay, in their order,
/// each filtered without keeping siblings.
pub open spec fn list_filtered<T>(
    old: Seq<T>,
    new: Seq<T>,
    preserve_siblings: bool,
    ok: spec_fn(T) -> bool,
    rel: spec_fn(T, T, bool) -> bool,
) -> bool
    decreases old.len(),
{
    if preserve_siblings {
        &&& new.len() == old.len()
        &&& forall|i: int|
            #![trigger old[i], new[i]]
            0 <= i < old.len() ==> rel(old[i], new[i], !ok(old[i]))
    } else if old.len() == 0 {
        new.len() == 0
    } else {
        let last = old[old.len() - 1];
        let rest = old.subrange(0, old.len() - 1);
        if ok(last) {
            list_filtered(rest, new, false, ok, rel)
        } else {
            &&& new.len() > 0
            &&& rel(last, new[new.len() - 1], false)
            &&& list_filtered(rest, new.subrange(0, new.len() - 1), false, ok, rel)
        }
    }
}

impl TypeCheckResult {
    /// `new` is this result with its log filtered for failures.
    pub open spec fn filtered_to(self, new: TypeCheckResult, preserve_siblings: bool) -> bool {
        &&& new.success == self.success
        &&& self.log.filtered_to(new.log, preserve_siblings)
    }

    /// Filters the log for failures (see `CheckLog::filter_failures`).
    pub fn filter_failures(&mut self, preserve_siblings: bool)
        ensures
            old(self).filtered_to(*final(self), preserve_siblings),
    {
        self.log.filter_failures(preserve_siblings);
    }
}

/// Both results are absent, or `new` is `old` filtered.
pub open spec fn opt_filtered_to(
    old: Option<TypeCheckResult>,
    new: Option<TypeCheckResult>,
    preserve_siblings: bool,
) -> bool {
    match (old, new) {
        (None, None) => true,
        (Some(a), Some(b)) => a.filtered_to(b, preserve_siblings),
        _ => false,
    }
}

fn filter_opt(m: &mut Option<TypeCheckResult>, preserve_siblings: bool)
    ensures
        opt_filtered_to(*old(m), *final(m), preserve_siblings),
{
    if let Some(r) = m {
        r.filter_failures(preserve_siblings);
    }
}

impl SymbolCheckResult {
    /// A type check succeeds with its type; a definiens with an inferred
    /// type; both when the type is inhabitable and the definiens checked
    /// against it successfully.
    pub open spec fn is_success(self) -> bool {
        match self {
            SymbolCheckResult::TypeOnly { result } => result.success,
            SymbolCheckResult::DefiniensOnly { inferred, .. } => inferred is Some,
            SymbolCheckResult::Both { inhabitable, matches } => inhabitable.success && match matches {
                Some(r) => r.success,
                None => false,
            },
        }
    }

    /// Whether the symbol checked successfully (see `is_success`).
    pub fn success(&self) -> (r: bool)
        ensures
            r == self.is_success(),
    {
        match self {
            SymbolCheckResult::TypeOnly { result } => result.success,
            SymbolCheckResult::DefiniensOnly { inferred, .. } => inferred.is_some(),
            SymbolCheckResult::Both { inhabitable, matches } => inhabitable.success && match matches {
                Some(r) => r.success,
                None => false,
            },
        }
    }

    /// `new` is this result with each of its logs filtered for failures.
    pub open spec fn filtered_to(self, new: SymbolCheckResult, preserve_siblings: bool) -> bool {
        match (self, new) {
            (SymbolCheckResult::TypeOnly { result: a }, SymbolCheckResult::TypeOnly { result: b }) => a.filtered_to(
                b,
                preserve_siblings,
            ),
            (
                SymbolCheckResult::DefiniensOnly { inferred: i, log: l },
                SymbolCheckResult::DefiniensOnly { inferred: i2, log: l2 },
            ) => i == i2 && l.filtered_to(l2, preserve_siblings),
            (
                SymbolCheckResult::Both { inhabitable: a, matches: m },
                SymbolCheckResult::Both { inhabitable: a2, matches: m2 },
            ) => a.filtered_to(a2, preserve_siblings) && opt_filtered_to(m, m2, preserve_siblings),
            _ => false,
        }
    }

    /// Filters each log of this result for failures.
    pub fn filter_failures(&mut self, preserve_siblings: bool)
        ensures
            old(self).filtered_to(*final(self), preserve_siblings),
    {
        match self {
            SymbolCheckResult::TypeOnly { result } => result.filter_failures(preserve_siblings),
            SymbolCheckResult::DefiniensOnly { log, .. } => log.filter_failures(preserve_siblings),
            SymbolCheckResult::Both { inhabitable, matches } => {
                inhabitable.filter_failures(preserve_siblings);
                filter_opt(matches, preserve_siblings);
            },
        }
    }
}

impl ProofStepCheckResult {
    /// A goal check succeeds with its goal; a proof with an inferred type;
    /// both when the goal is inhabitable and the proof proves it.
    pub open spec fn is_success(self) -> bool {
        match self {
            ProofStepCheckResult::GoalOnly { result } => result.success,
            ProofStepCheckResult::ProofOnly { inferred, .. } => inferred is Some,
            ProofStepCheckResult::Both { inhabitable, matches } => inhabitable.success && match matches {
                Some(r) => r.success,
                None => false,
            },
        }
    }

    /// Whether the proof step checked successfully (see `is_success`).
    pub fn success(&self) -> (r: bool)
        ensures
            r == self.is_success(),
    {
        match self {
            ProofStepCheckResult::GoalOnly { result } => result.success,
            ProofStepCheckResult::ProofOnly { inferred, .. } => inferred.is_some(),
            ProofStepCheckResult::Both { inhabitable, matches } => inhabitable.success && match matches {
                Some(r) => r.success,
                None => false,
            },
        }
    }

    /// `new` is this result with each of its logs filtered for failures.
    pub open spec fn filtered_to(self, new: ProofStepCheckResult, preserve_siblings: bool) -> bool {
        match (self, new) {
            (
                ProofStepCheckResult::GoalOnly { result: a },
                ProofStepCheckResult::GoalOnly { result: b },
            ) => a.filtered_to(b, preserve_siblings),
            (
                ProofStepCheckResult::ProofOnly { inferred: i, log: l },
                ProofStepCheckResult::ProofOnly { inferred: i2, log: l2 },
            ) => i == i2 && l.filtered_to(l2, preserve_siblings),
            (
                ProofStepCheckResult::Both { inhabitable: a, matches: m },
                ProofStepCheckResult::Both { inhabitable: a2, matches: m2 },
            ) => a.filtered_to(a2, preserve_siblings) && opt_filtered_to(m, m2, preserve_siblings),
            _ => false,
        }
    }

    /// Filters each log of this result for failures.
    pub fn filter_failures(&mut self, preserve_siblings: bool)
        ensures
            old(self).filtered_to(*final(self), preserve_siblings),
    {
        match self {
            ProofStepCheckResult::GoalOnly { result } => result.filter_failures(preserve_siblings),
            ProofStepCheckResult::ProofOnly { log, .. } => log.filter_failures(preserve_siblings),
            ProofStepCheckResult::Both { inhabitable, matches } => {
                inhabitable.filter_failures(preserve_siblings);
                filter_opt(matches, preserve_siblings);
            },
        }
    }
}

impl ContentCheckResult {
    /// A declaration succeeds when its symbol does.
    pub open spec fn is_success(self) -> bool {
        match self {
            ContentCheckResult::Symbol(_, r) => r.is_success(),
        }
    }

    /// Whether the declaration checked successfully.
    pub fn success(&self) -> (r: bool)
        ensures
            r == self.is_success(),
    {
        match self {
            ContentCheckResult::Symbol(_, r) => r.success(),
        }
    }

    /// `new` is this result with its symbol's logs filtered for failures.
    pub open spec fn filtered_to(self, new: ContentCheckResult, preserve_siblings: bool) -> bool {
        match (self, new) {
            (ContentCheckResult::Symbol(u, s), ContentCheckResult::Symbol(u2, s2)) => u == u2
                && s.filtered_to(s2, preserve_siblings),
        }
    }

    /// Filters the symbol's logs for failures.
    pub fn filter_failures(&mut self, preserve_siblings: bool)
        ensures
            old(self).filtered_to(*final(self), preserve_siblings),
    {
        match self {
            ContentCheckResult::Symbol(_, check) => check.filter_failures(preserve_siblings),
        }
    }
}


/// Whether a declaration checked successfully, as a function.
pub open spec fn content_ok() -> spec_fn(ContentCheckResult) -> bool {
    |c: ContentCheckResult| c.is_success()
}

/// Filtering of declaration results, as a relation.
pub open spec fn content_rel() -> spec_fn(ContentCheckResult, ContentCheckResult, bool) -> bool {
    |a: ContentCheckResult, b: ContentCheckResult, q: bool| a.filtered_to(b, q)
}

/// Whether an element of a document checked successfully, as a function.
pub open spec fn check_ok() -> spec_fn(CheckResult) -> bool {
    |c: CheckResult| c.is_success()
}

/// Filtering of document elements, as a relation.
pub open spec fn check_rel() -> spec_fn(CheckResult, CheckResult, bool) -> bool {
    |a: CheckResult, b: CheckResult, q: bool| a.filtered_to(b, q)
}

impl ProofStepResult {
    /// A step succeeds when its check does; a subproof when all its steps do.
    pub open spec fn is_success(self) -> bool
        decreases self,
    {
        match self {
            ProofStepResult::Assumption { result, .. } => result.is_success(),
            ProofStepResult::Conclusion { result, .. } => result.is_success(),
            ProofStepResult::Step { result, .. } => result.is_success(),
            ProofStepResult::Subproof { results, .. } => forall|i: int|
                0 <= i < results@.len() ==> (#[trigger] results@[i]).is_success(),
        }
    }

    /// `new` is this result filtered for failures: a step keeps its variable
    /// and has its check filtered; a subproof keeps its URI and variable and
    /// has its steps filtered as `proof_steps_filtered` says.
    pub open spec fn filtered_to(self, new: ProofStepResult, preserve_siblings: bool) -> bool
        decreases self,
    {
        match self {
            ProofStepResult::Assumption { var, result } => match new {
                ProofStepResult::Assumption { var: v2, result: r2 } => var == v2 && result.filtered_to(
                    r2,
                    preserve_siblings,
                ),
                _ => false,
            },
            ProofStepResult::Conclusion { var, result } => match new {
                ProofStepResult::Conclusion { var: v2, result: r2 } => var == v2 && result.filtered_to(
                    r2,
                    preserve_siblings,
                ),
                _ => false,
            },
            ProofStepResult::Step { var, result } => match new {
                ProofStepResult::Step { var: v2, result: r2 } => var == v2 && result.filtered_to(
                    r2,
                    preserve_siblings,
                ),
                _ => false,
            },
            ProofStepResult::Subproof { uri, var, results } => match new {
                ProofStepResult::Subproof { uri: u2, var: v2, results: rs2 } => uri == u2 && var == v2
                    && proof_steps_filtered(results@, rs2@, preserve_siblings),
                _ => false,
            },
        }
    }
}

/// `new` is what filtering the proof steps `old` for failures gives (as
/// `list_filtered` says for the steps of a proof).
pub open spec fn proof_steps_filtered(
    old: Seq<ProofStepResult>,
    new: Seq<ProofStepResult>,
    preserve_siblings: bool,
) -> bool
    decreases old,
{
    if preserve_siblings {
        &&& new.len() == old.len()
        &&& forall|i: int|
            #![trigger old[i], new[i]]
            0 <= i < old.len() ==> old[i].filtered_to(new[i], !old[i].is_success())
    } else if old.len() == 0 {
        new.len() == 0
    } else {
        let last = old[old.len() - 1];
        let rest = old.subrange(0, old.len() - 1);
        if last.is_success() {
            proof_steps_filtered(rest, new, false)
        } else {
            &&& new.len() > 0
            &&& last.filtered_to(new[new.len() - 1], false)
            &&& proof_steps_filtered(rest, new.subrange(0, new.len() - 1), false)
        }
    }
}

impl ProofStepResult {
    /// Whether the step checked successfully (see `is_success`).
    pub fn success(&self) -> (r: bool)
        ensures
            r == self.is_success(),
        decreases self,
    {
        match self {
            ProofStepResult::Assumption { result, .. } | ProofStepResult::Conclusion { result, .. }
            | ProofStepResult::Step { result, .. } => result.success(),
            ProofStepResult::Subproof { results, .. } => {
                let mut i: usize = 0;
                #[verifier::loop_isolation(false)]
                while i < results.len()
                    invariant
                        0 <= i <= results@.len(),
                        forall|j: int| 0 <= j < i ==> (#[trigger] results@[j]).is_success(),
                    decreases results@.len() - i,
                {
                    proof {
                        assert(decreases_to!(self => results@[i as int]));
                    }
                    if !results[i].success() {
                        return false;
                    }
                    i = i + 1;
                }
                true
            },
        }
    }

    fn into_filtered(self, preserve_siblings: bool) -> (r: ProofStepResult)
        ensures
            self.filtered_to(r, preserve_siblings),
        decreases self,
    {
        match self {
            ProofStepResult::Assumption { var, mut result } => {
                result.filter_failures(preserve_siblings);
                ProofStepResult::Assumption { var, result }
            },
            ProofStepResult::Conclusion { var, mut result } => {
                result.filter_failures(preserve_siblings);
                ProofStepResult::Conclusion { var, result }
            },
            ProofStepResult::Step { var, mut result } => {
                result.filter_failures(preserve_siblings);
                ProofStepResult::Step { var, result }
            },
            ProofStepResult::Subproof { uri, var, results } => {
                let out = filter_proof_steps(results, preserve_siblings);
                ProofStepResult::Subproof { uri, var, results: out }
            },
        }
    }

    /// Drops the successful parts of the result, keeping what explains the
    /// failures (as `CheckLog::filter_failures` does for a log).
    pub fn filter_failures(&mut self, preserve_siblings: bool)
        ensures
            old(self).filtered_to(*final(self), preserve_siblings),
    {
        let mut tmp = ProofStepResult::Subproof {
            uri: Uri::Other(String::new()),
            var: None,
            results: Vec::new(),
        };
        std::mem::swap(self, &mut tmp);
        *self = tmp.into_filtered(preserve_siblings);
    }
}

fn filter_proof_steps(steps: Vec<ProofStepResult>, preserve_siblings: bool) -> (r: Vec<ProofStepResult>)
    ensures
        proof_steps_filtered(steps@, r@, preserve_siblings),
    decreases steps,
{
    let ghost old_steps = steps@;
    let ghost whole = steps;
    let mut out: Vec<ProofStepResult> = Vec::new();
    if preserve_siblings {
        #[verifier::loop_isolation(false)]
        for x in it: steps.into_iter()
            invariant
                it.seq() == old_steps,
                out@.len() == it.index(),
                forall|j: int|
                    #![trigger old_steps[j]]
                    0 <= j < it.index() ==> old_steps[j].filtered_to(out@[j], !old_steps[j].is_success()),
        {
            proof {
                assert(x == old_steps[it.index() as int]);
                assert(decreases_to!(whole => old_steps[it.index() as int]));
            }
            let ok = x.success();
            let y = x.into_filtered(!ok);
            out.push(y);
        }
    } else {
        #[verifier::loop_isolation(false)]
        for x in it: steps.into_iter()
            invariant
                it.seq() == old_steps,
                proof_steps_filtered(old_steps.take(it.index() as int), out@, false),
        {
            let ghost k = it.index() as int;
            let ghost prev = out@;
            proof {
                assert(x == old_steps[k]);
                assert(decreases_to!(whole => old_steps[k]));
                assert(old_steps.take(k + 1).subrange(0, k) =~= old_steps.take(k));
            }
            if !x.success() {
                let y = x.into_filtered(false);
                out.push(y);
                assert(out@.subrange(0, out@.len() - 1) =~= prev);
            }
        }
        assert(old_steps.take(old_steps.len() as int) =~= old_steps);
    }
    out
}


impl CheckResult {
    /// A module succeeds when all its declarations do; a variable or a
    /// declaration when its symbol does; a term when its type was inferred;
    /// a proof when all its steps succeed; a missing module never.
    pub open spec fn is_success(self) -> bool {
        match self {
            CheckResult::Module { checks, .. } => forall|i: int|
                0 <= i < checks@.len() ==> (#[trigger] checks@[i]).is_success(),
            CheckResult::Variable(_, res) => res.is_success(),
            CheckResult::Term { inferred, .. } => inferred is Some,
            CheckResult::Missing(_) => false,
            CheckResult::Content(c) => c.is_success(),
            CheckResult::Proof(_, s) => forall|i: int|
                0 <= i < s@.len() ==> (#[trigger] s@[i]).is_success(),
        }
    }

    /// Whether the element checked successfully (see `is_success`).
    pub fn success(&self) -> (r: bool)
        ensures
            r == self.is_success(),
    {
        match self {
            CheckResult::Module { checks, .. } => {
                let mut i: usize = 0;
                #[verifier::loop_isolation(false)]
                while i < checks.len()
                    invariant
                        0 <= i <= checks@.len(),
                        forall|j: int| 0 <= j < i ==> (#[trigger] checks@[j]).is_success(),
                    decreases checks@.len() - i,
                {
                    if !checks[i].success() {
                        return false;
                    }
                    i = i + 1;
                }
                true
            },
            CheckResult::Variable(_, res) => res.success(),
            CheckResult::Term { inferred, .. } => inferred.is_some(),
            CheckResult::Missing(_) => false,
            CheckResult::Content(c) => c.success(),
            CheckResult::Proof(_, s) => {
                let mut i: usize = 0;
                #[verifier::loop_isolation(false)]
                while i < s.len()
                    invariant
                        0 <= i <= s@.len(),
                        forall|j: int| 0 <= j < i ==> (#[trigger] s@[j]).is_success(),
                    decreases s@.len() - i,
                {
                    if !s[i].success() {
                        return false;
                    }
                    i = i + 1;
                }
                true
            },
        }
    }

    /// `new` is this result filtered for failures: it keeps its URI (and
    /// inferred type), and its declarations, proof steps, symbol or log are
    /// filtered; a missing module stays as it is.
    pub open spec fn filtered_to(self, new: CheckResult, preserve_siblings: bool) -> bool {
        match (self, new) {
            (CheckResult::Module { uri, checks }, CheckResult::Module { uri: u2, checks: c2 }) => uri
                == u2 && list_filtered(checks@, c2@, preserve_siblings, content_ok(), content_rel()),
            (CheckResult::Variable(u, s), CheckResult::Variable(u2, s2)) => u == u2 && s.filtered_to(
                s2,
                preserve_siblings,
            ),
            (CheckResult::Proof(u, s), CheckResult::Proof(u2, s2)) => u == u2 && proof_steps_filtered(
                s@,
                s2@,
                preserve_siblings,
            ),
            (
                CheckResult::Term { uri, inferred, log },
                CheckResult::Term { uri: u2, inferred: i2, log: l2 },
            ) => uri == u2 && inferred == i2 && log.filtered_to(l2, preserve_siblings),
            (CheckResult::Content(c), CheckResult::Content(c2)) => c.filtered_to(c2, preserve_siblings),
            (CheckResult::Missing(u), CheckResult::Missing(u2)) => u == u2,
            _ => false,
        }
    }

    fn into_filtered(self, preserve_siblings: bool) -> (r: CheckResult)
        ensures
            self.filtered_to(r, preserve_siblings),
    {
        match self {
            CheckResult::Module { uri, checks } => {
                let out = filter_contents(checks, preserve_siblings);
                CheckResult::Module { uri, checks: out }
            },
            CheckResult::Variable(u, mut check) => {
                check.filter_failures(preserve_siblings);
                CheckResult::Variable(u, check)
            },
            CheckResult::Proof(u, checks) => {
                let out = filter_proof_steps(checks, preserve_siblings);
                CheckResult::Proof(u, out)
            },
            CheckResult::Term { uri, inferred, mut log } => {
                log.filter_failures(preserve_siblings);
                CheckResult::Term { uri, inferred, log }
            },
            CheckResult::Content(mut check) => {
                check.filter_failures(preserve_siblings);
                CheckResult::Content(check)
            },
            CheckResult::Missing(u) => CheckResult::Missing(u),
        }
    }

    /// Drops the successful parts of the result, keeping what explains the
    /// failures (as `CheckLog::filter_failures` does for a log).
    pub fn filter_failures(&mut self, preserve_siblings: bool)
        ensures
            old(self).filtered_to(*final(self), preserve_siblings),
    {
        let mut tmp = CheckResult::Missing(Uri::Other(String::new()));
        std::mem::swap(self, &mut tmp);
        *self = tmp.into_filtered(preserve_siblings);
    }
}

fn filter_contents(checks: Vec<ContentCheckResult>, preserve_siblings: bool) -> (r: Vec<
    ContentCheckResult,
>)
    ensures
        list_filtered(checks@, r@, preserve_siblings, content_ok(), content_rel()),
{
    let ghost old_checks = checks@;
    let mut out: Vec<ContentCheckResult> = Vec::new();
    if preserve_siblings {
        for x in it: checks.into_iter()
            invariant
                it.seq() == old_checks,
                out@.len() == it.index(),
                forall|j: int|
                    #![trigger old_checks[j]]
                    0 <= j < it.index() ==> old_checks[j].filtered_to(
                        out@[j],
                        !old_checks[j].is_success(),
                    ),
        {
            let mut y = x;
            let ok = y.success();
            y.filter_failures(!ok);
            out.push(y);
        }
    } else {
        for x in it: checks.into_iter()
            invariant
                it.seq() == old_checks,
                list_filtered(
                    old_checks.take(it.index() as int),
                    out@,
                    false,
                    content_ok(),
                    content_rel(),
                ),
        {
            let ghost k = it.index() as int;
            let ghost prev = out@;
            proof {
                assert(old_checks.take(k + 1).subrange(0, k) =~= old_checks.take(k));
            }
            let mut y = x;
            if !y.success() {
                y.filter_failures(false);
                out.push(y);
                assert(out@.subrange(0, out@.len() - 1) =~= prev);
            }
        }
        assert(old_checks.take(old_checks.len() as int) =~= old_checks);
    }
    out
}

impl DocumentCheckResult {
    /// A document succeeds when all its elements do.
    pub open spec fn is_success(self) -> bool {
        forall|i: int| 0 <= i < self.checks@.len() ==> (#[trigger] self.checks@[i]).is_success()
    }

    /// Whether the whole document checked successfully.
    pub fn success(&self) -> (r: bool)
        ensures
            r == self.is_success(),
    {
        let mut i: usize = 0;
        while i < self.checks.len()
            invariant
                0 <= i <= self.checks@.len(),
                forall|j: int| 0 <= j < i ==> (#[trigger] self.checks@[j]).is_success(),
            decreases self.checks@.len() - i,
        {
            if !self.checks[i].success() {
                return false;
            }
            i = i + 1;
        }
        true
    }

    /// `new` is this result with its elements filtered for failures.
    pub open spec fn filtered_to(self, new: DocumentCheckResult, preserve_siblings: bool) -> bool {
        &&& new.uri == self.uri
        &&& list_filtered(self.checks@, new.checks@, preserve_siblings, check_ok(), check_rel())
    }

    /// Drops the successful parts of the result, keeping what explains the
    /// failures: keeping siblings, every element stays, filtered; otherwise
    /// only the failed elements stay.
    pub fn filter_failures(&mut self, preserve_siblings: bool)
        ensures
            old(self).filtered_to(*final(self), preserve_siblings),
    {
        let mut checks: Vec<CheckResult> = Vec::new();
        std::mem::swap(&mut self.checks, &mut checks);
        let ghost old_checks = checks@;
        let mut out: Vec<CheckResult> = Vec::new();
        if preserve_siblings {
            for x in it: checks.into_iter()
                invariant
                    it.seq() == old_checks,
                    out@.len() == it.index(),
                    forall|j: int|
                        #![trigger old_checks[j]]
                        0 <= j < it.index() ==> old_checks[j].filtered_to(
                            out@[j],
                            !old_checks[j].is_success(),
                        ),
            {
                let mut y = x;
                let ok = y.success();
                y.filter_failures(!ok);
                out.push(y);
            }
        } else {
            for x in it: checks.into_iter()
                invariant
                    it.seq() == old_checks,
                    list_filtered(
                        old_checks.take(it.index() as int),
                        out@,
                        false,
                        check_ok(),
                        check_rel(),
                    ),
            {
                let ghost k = it.index() as int;
                let ghost prev = out@;
                proof {
                    assert(old_checks.take(k + 1).subrange(0, k) =~= old_checks.take(k));
                }
                let mut y = x;
                if !y.success() {
                    y.filter_failures(false);
                    out.push(y);
                    assert(out@.subrange(0, out@.len() - 1) =~= prev);
                }
            }
            assert(old_checks.take(old_checks.len() as int) =~= old_checks);
        }
        self.checks = out;
    }
}


/// Where filtering keeps success, filtering a list without keeping siblings
/// leaves failed elements only, and none exactly when every element
/// succeeded.
pub proof fn lemma_list_filtered_fail<T>(
    old: Seq<T>,
    new: Seq<T>,
    ok: spec_fn(T) -> bool,
    rel: spec_fn(T, T, bool) -> bool,
)
    requires
        list_filtered(old, new, false, ok, rel),
        forall|a: T, b: T, q: bool| #[trigger] rel(a, b, q) ==> ok(b) == ok(a),
    ensures
        forall|j: int| 0 <= j < new.len() ==> !ok(#[trigger] new[j]),
        new.len() == 0 <==> forall|i: int| 0 <= i < old.len() ==> ok(#[trigger] old[i]),
    decreases old.len(),
{
    if old.len() > 0 {
        let k = old.len() - 1;
        let last = old[k];
        let rest = old.subrange(0, k);
        if ok(last) {
            lemma_list_filtered_fail(rest, new, ok, rel);
            assert forall|i: int| 0 <= i < old.len() && (forall|i2: int| 0 <= i2 < rest.len() ==> ok(#[trigger] rest[i2])) implies ok(#[trigger] old[i]) by {
                if i < k {
                    assert(rest[i] == old[i]);
                }
            }
            assert forall|i: int| 0 <= i < rest.len() && (forall|i2: int| 0 <= i2 < old.len() ==> ok(#[trigger] old[i2])) implies ok(#[trigger] rest[i]) by {
                assert(rest[i] == old[i]);
            }
        } else {
            let nrest = new.subrange(0, new.len() - 1);
            lemma_list_filtered_fail(rest, nrest, ok, rel);
            assert(rel(last, new[new.len() - 1], false));
            assert forall|j: int| 0 <= j < new.len() implies !ok(#[trigger] new[j]) by {
                if j < new.len() - 1 {
                    assert(new[j] == nrest[j]);
                }
            }
        }
    }
}

/// Filtering never changes whether a step of a proof succeeded.
pub proof fn lemma_proof_step_filter_keeps_success(
    old: ProofStepResult,
    new: ProofStepResult,
    preserve_siblings: bool,
)
    requires
        old.filtered_to(new, preserve_siblings),
    ensures
        new.is_success() == old.is_success(),
    decreases old,
{
    if let ProofStepResult::Subproof { results, .. } = old {
        if let ProofStepResult::Subproof { results: nres, .. } = new {
            let os = results@;
            let ns = nres@;
            if preserve_siblings {
                assert forall|i: int| 0 <= i < os.len() implies ns[i].is_success() == os[i].is_success() by {
                    assert(decreases_to!(old => os[i]));
                    lemma_proof_step_filter_keeps_success(os[i], ns[i], !os[i].is_success());
                }
            } else {
                lemma_proof_steps_filtered_fail(os, ns);
                if !old.is_success() {
                    let i = choose|i: int| 0 <= i < os.len() && !(#[trigger] os[i]).is_success();
                    assert(ns.len() > 0);
                    assert(!ns[0].is_success());
                }
            }
        }
    }
}

proof fn lemma_proof_steps_filtered_fail(old: Seq<ProofStepResult>, new: Seq<ProofStepResult>)
    requires
        proof_steps_filtered(old, new, false),
    ensures
        forall|j: int| 0 <= j < new.len() ==> !(#[trigger] new[j]).is_success(),
        new.len() == 0 <==> forall|i: int| 0 <= i < old.len() ==> (#[trigger] old[i]).is_success(),
    decreases old,
{
    if old.len() > 0 {
        let k = old.len() - 1;
        let last = old[k];
        let rest = old.subrange(0, k);
        if last.is_success() {
            lemma_proof_steps_filtered_fail(rest, new);
            assert forall|i: int| 0 <= i < old.len() && (forall|i2: int| 0 <= i2 < rest.len() ==> (#[trigger] rest[i2]).is_success()) implies (#[trigger] old[i]).is_success() by {
                if i < k {
                    assert(rest[i] == old[i]);
                }
            }
            assert forall|i: int| 0 <= i < rest.len() && (forall|i2: int| 0 <= i2 < old.len() ==> (#[trigger] old[i2]).is_success()) implies (#[trigger] rest[i]).is_success() by {
                assert(rest[i] == old[i]);
            }
        } else {
            let nrest = new.subrange(0, new.len() - 1);
            lemma_proof_steps_filtered_fail(rest, nrest);
            lemma_proof_step_filter_keeps_success(last, new[new.len() - 1], false);
            assert forall|j: int| 0 <= j < new.len() implies !(#[trigger] new[j]).is_success() by {
                if j < new.len() - 1 {
                    assert(new[j] == nrest[j]);
                }
            }
        }
    }
}

/// Filtering never changes whether a symbol checked successfully.
pub proof fn lemma_symbol_filter_keeps_success(
    before: SymbolCheckResult,
    after: SymbolCheckResult,
    preserve_siblings: bool,
)
    requires
        before.filtered_to(after, preserve_siblings),
    ensures
        after.is_success() == before.is_success(),
{
}

proof fn lemma_contents_filter_keeps_success(
    os: Seq<ContentCheckResult>,
    ns: Seq<ContentCheckResult>,
    preserve_siblings: bool,
)
    requires
        list_filtered(os, ns, preserve_siblings, content_ok(), content_rel()),
    ensures
        (forall|i: int| 0 <= i < ns.len() ==> (#[trigger] ns[i]).is_success()) == (forall|i: int|
            0 <= i < os.len() ==> (#[trigger] os[i]).is_success()),
{
    assert forall|a: ContentCheckResult, b: ContentCheckResult, q: bool|
        #[trigger] content_rel()(a, b, q) implies content_ok()(b) == content_ok()(a) by {
        match (a, b) {
            (ContentCheckResult::Symbol(_, x), ContentCheckResult::Symbol(_, y)) => {
                lemma_symbol_filter_keeps_success(x, y, q);
            },
        }
    }
    if preserve_siblings {
        assert forall|i: int| 0 <= i < os.len() implies (#[trigger] ns[i]).is_success() == os[i].is_success() by {
            assert(content_rel()(os[i], ns[i], !content_ok()(os[i])));
            assert(content_ok()(ns[i]) == content_ok()(os[i]));
        }
        if forall|i: int| 0 <= i < os.len() ==> (#[trigger] os[i]).is_success() {
            assert forall|i: int| 0 <= i < ns.len() implies (#[trigger] ns[i]).is_success() by {
                assert(os[i].is_success());
            }
        } else {
            let i = choose|i: int| 0 <= i < os.len() && !(#[trigger] os[i]).is_success();
            assert(!ns[i].is_success());
        }
    } else {
        lemma_list_filtered_fail(os, ns, content_ok(), content_rel());
        assert forall|j: int| 0 <= j < ns.len() implies !(#[trigger] ns[j]).is_success() by {
            assert(!content_ok()(ns[j]));
        }
        if forall|i: int| 0 <= i < os.len() ==> (#[trigger] os[i]).is_success() {
            assert forall|i: int| 0 <= i < os.len() implies content_ok()(#[trigger] os[i]) by {
                assert(os[i].is_success());
            }
            assert(ns.len() == 0);
        } else {
            let i = choose|i: int| 0 <= i < os.len() && !(#[trigger] os[i]).is_success();
            assert(!content_ok()(os[i]));
            assert(ns.len() != 0);
            assert(!ns[0].is_success());
        }
    }
}

/// Filtering never changes whether an element of a document succeeded.
pub proof fn lemma_check_filter_keeps_success(before: CheckResult, after: CheckResult, preserve_siblings: bool)
    requires
        before.filtered_to(after, preserve_siblings),
    ensures
        after.is_success() == before.is_success(),
{
    assert forall|a: ContentCheckResult, b: ContentCheckResult, q: bool|
        #[trigger] content_rel()(a, b, q) implies content_ok()(b) == content_ok()(a) by {
        match (a, b) {
            (ContentCheckResult::Symbol(_, x), ContentCheckResult::Symbol(_, y)) => {
                lemma_symbol_filter_keeps_success(x, y, q);
            },
        }
    }
    match before {
        CheckResult::Module { checks, .. } => {
            let c2 = after->checks;
            lemma_contents_filter_keeps_success(checks@, c2@, preserve_siblings);
            assert(after.is_success() == (forall|i: int| 0 <= i < c2@.len() ==> (#[trigger] c2@[i]).is_success()));
        },
        CheckResult::Proof(_, s) => {
            let s2 = after->Proof_1;
            let os = s@;
            let ns = s2@;
            if preserve_siblings {
                assert forall|i: int| 0 <= i < os.len() implies (#[trigger] ns[i]).is_success() == os[i].is_success() by {
                    lemma_proof_step_filter_keeps_success(os[i], ns[i], !os[i].is_success());
                }
                if !before.is_success() {
                    let i = choose|i: int| 0 <= i < os.len() && !(#[trigger] os[i]).is_success();
                    assert(!ns[i].is_success());
                }
            } else {
                lemma_proof_steps_filtered_fail(os, ns);
                if !before.is_success() {
                    let i = choose|i: int| 0 <= i < os.len() && !(#[trigger] os[i]).is_success();
                    assert(ns.len() > 0);
                    assert(!ns[0].is_success());
                }
            }
        },
        CheckResult::Variable(_, x) => {
            lemma_symbol_filter_keeps_success(x, after->Variable_1, preserve_siblings);
        },
        CheckResult::Content(ContentCheckResult::Symbol(_, x)) => {
            match after {
                CheckResult::Content(ContentCheckResult::Symbol(_, y)) => {
                    lemma_symbol_filter_keeps_success(x, y, preserve_siblings);
                },
                _ => {},
            }
        },
        _ => {},
    }
}

/// Filtering never changes whether a document checked successfully.
pub proof fn lemma_document_filter_keeps_success(
    before: DocumentCheckResult,
    after: DocumentCheckResult,
    preserve_siblings: bool,
)
    requires
        before.filtered_to(after, preserve_siblings),
    ensures
        after.is_success() == before.is_success(),
{
    assert forall|a: CheckResult, b: CheckResult, q: bool|
        #[trigger] check_rel()(a, b, q) implies check_ok()(b) == check_ok()(a) by {
        lemma_check_filter_keeps_success(a, b, q);
    }
    let os = before.checks@;
    let ns = after.checks@;
    if preserve_siblings {
        assert forall|i: int| 0 <= i < os.len() implies (#[trigger] ns[i]).is_success() == os[i].is_success() by {
            assert(check_rel()(os[i], ns[i], !check_ok()(os[i])));
        }
        if !before.is_success() {
            let i = choose|i: int| 0 <= i < os.len() && !(#[trigger] os[i]).is_success();
            assert(!ns[i].is_success());
        }
    } else {
        lemma_list_filtered_fail(os, ns, check_ok(), check_rel());
        assert forall|j: int| 0 <= j < ns.len() implies !(#[trigger] ns[j]).is_success() by {
            assert(!check_ok()(ns[j]));
        }
        if !before.is_success() {
            let i = choose|i: int| 0 <= i < os.len() && !(#[trigger] os[i]).is_success();
            assert(!check_ok()(os[i]));
            assert(ns.len() > 0);
            assert(!ns[0].is_success());
        } else {
            assert forall|i: int| 0 <= i < os.len() implies check_ok()(#[trigger] os[i]) by {
                assert(os[i].is_success());
            }
        }
    }
}

/// Filtering a document without keeping siblings leaves only the elements
/// that failed.
pub proof fn lemma_document_filter_leaves_failures(old: DocumentCheckResult, new: DocumentCheckResult)
    requires
        old.filtered_to(new, false),
    ensures
        forall|j: int| 0 <= j < new.checks@.len() ==> !(#[trigger] new.checks@[j]).is_success(),
{
    assert forall|a: CheckResult, b: CheckResult, q: bool|
        #[trigger] check_rel()(a, b, q) implies check_ok()(b) == check_ok()(a) by {
        lemma_check_filter_keeps_success(a, b, q);
    }
    lemma_list_filtered_fail(old.checks@, new.checks@, check_ok(), check_rel());
    assert forall|j: int| 0 <= j < new.checks@.len() implies !(#[trigger] new.checks@[j]).is_success() by {
        assert(!check_ok()(new.checks@[j]));
    }
}


/// Where filtering an element again gives it back and keeps whether it
/// succeeded, filtering a filtered list gives it back.
pub proof fn lemma_list_filtered_idempotent<T>(
    old: Seq<T>,
    new: Seq<T>,
    preserve_siblings: bool,
    ok: spec_fn(T) -> bool,
    rel: spec_fn(T, T, bool) -> bool,
)
    requires
        list_filtered(old, new, preserve_siblings, ok, rel),
        forall|a: T, b: T, q: bool| #[trigger] rel(a, b, q) ==> ok(b) == ok(a) && rel(b, b, q),
    ensures
        list_filtered(new, new, preserve_siblings, ok, rel),
    decreases old.len(),
{
    if preserve_siblings {
        assert forall|i: int|
            #![trigger new[i]]
            0 <= i < new.len() implies rel(new[i], new[i], !ok(new[i])) by {
            assert(rel(old[i], new[i], !ok(old[i])));
        }
    } else if old.len() > 0 {
        let k = old.len() - 1;
        let rest = old.subrange(0, k);
        if ok(old[k]) {
            lemma_list_filtered_idempotent(rest, new, false, ok, rel);
        } else {
            let nrest = new.subrange(0, new.len() - 1);
            lemma_list_filtered_idempotent(rest, nrest, false, ok, rel);
            assert(rel(old[k], new[new.len() - 1], false));
        }
    }
}

/// Filtering a type check again gives it back.
pub proof fn lemma_type_check_filter_idempotent(
    before: TypeCheckResult,
    after: TypeCheckResult,
    preserve_siblings: bool,
)
    requires
        before.filtered_to(after, preserve_siblings),
    ensures
        after.filtered_to(after, preserve_siblings),
{
    lemma_filter_idempotent(before.log, after.log, preserve_siblings);
}

/// Filtering a symbol check again gives it back.
pub proof fn lemma_symbol_filter_idempotent(
    before: SymbolCheckResult,
    after: SymbolCheckResult,
    preserve_siblings: bool,
)
    requires
        before.filtered_to(after, preserve_siblings),
    ensures
        after.filtered_to(after, preserve_siblings),
{
    match (before, after) {
        (SymbolCheckResult::TypeOnly { result: a }, SymbolCheckResult::TypeOnly { result: b }) => {
            lemma_type_check_filter_idempotent(a, b, preserve_siblings);
        },
        (
            SymbolCheckResult::DefiniensOnly { log: a, .. },
            SymbolCheckResult::DefiniensOnly { log: b, .. },
        ) => {
            lemma_filter_idempotent(a, b, preserve_siblings);
        },
        (
            SymbolCheckResult::Both { inhabitable: a, matches: m },
            SymbolCheckResult::Both { inhabitable: b, matches: m2 },
        ) => {
            lemma_type_check_filter_idempotent(a, b, preserve_siblings);
            if let (Some(x), Some(y)) = (m, m2) {
                lemma_type_check_filter_idempotent(x, y, preserve_siblings);
            }
        },
        _ => {},
    }
}

/// Filtering the check of a proof step's goal or proof again gives it back.
pub proof fn lemma_proof_step_check_filter_idempotent(
    before: ProofStepCheckResult,
    after: ProofStepCheckResult,
    preserve_siblings: bool,
)
    requires
        before.filtered_to(after, preserve_siblings),
    ensures
        after.filtered_to(after, preserve_siblings),
{
    match (before, after) {
        (ProofStepCheckResult::GoalOnly { result: a }, ProofStepCheckResult::GoalOnly { result: b }) => {
            lemma_type_check_filter_idempotent(a, b, preserve_siblings);
        },
        (
            ProofStepCheckResult::ProofOnly { log: a, .. },
            ProofStepCheckResult::ProofOnly { log: b, .. },
        ) => {
            lemma_filter_idempotent(a, b, preserve_siblings);
        },
        (
            ProofStepCheckResult::Both { inhabitable: a, matches: m },
            ProofStepCheckResult::Both { inhabitable: b, matches: m2 },
        ) => {
            lemma_type_check_filter_idempotent(a, b, preserve_siblings);
            if let (Some(x), Some(y)) = (m, m2) {
                lemma_type_check_filter_idempotent(x, y, preserve_siblings);
            }
        },
        _ => {},
    }
}

/// Filtering a step of a proof again gives it back.
pub proof fn lemma_proof_step_filter_idempotent(
    before: ProofStepResult,
    after: ProofStepResult,
    preserve_siblings: bool,
)
    requires
        before.filtered_to(after, preserve_siblings),
    ensures
        after.filtered_to(after, preserve_siblings),
    decreases before,
{
    match before {
        ProofStepResult::Assumption { result, .. } => {
            lemma_proof_step_check_filter_idempotent(result, after->Assumption_result, preserve_siblings);
        },
        ProofStepResult::Conclusion { result, .. } => {
            lemma_proof_step_check_filter_idempotent(result, after->Conclusion_result, preserve_siblings);
        },
        ProofStepResult::Step { result, .. } => {
            lemma_proof_step_check_filter_idempotent(result, after->Step_result, preserve_siblings);
        },
        ProofStepResult::Subproof { results, .. } => {
            let os = results@;
            let ns = after->Subproof_results@;
            if preserve_siblings {
                assert forall|i: int|
                    #![trigger ns[i]]
                    0 <= i < ns.len() implies ns[i].filtered_to(ns[i], !ns[i].is_success()) by {
                    assert(decreases_to!(before => os[i]));
                    lemma_proof_step_filter_keeps_success(os[i], ns[i], !os[i].is_success());
                    lemma_proof_step_filter_idempotent(os[i], ns[i], !os[i].is_success());
                }
            } else {
                lemma_proof_steps_filter_idempotent(before, os, ns);
            }
        },
    }
}

proof fn lemma_proof_steps_filter_idempotent(
    whole: ProofStepResult,
    old: Seq<ProofStepResult>,
    new: Seq<ProofStepResult>,
)
    requires
        whole is Subproof,
        proof_steps_filtered(old, new, false),
        old.len() <= whole->Subproof_results@.len(),
        forall|i: int| 0 <= i < old.len() ==> old[i] == #[trigger] whole->Subproof_results@[i],
    ensures
        proof_steps_filtered(new, new, false),
    decreases whole, old.len(),
{
    if old.len() > 0 {
        let k = old.len() - 1;
        let rest = old.subrange(0, k);
        assert forall|i: int| 0 <= i < rest.len() implies rest[i] == #[trigger] whole->Subproof_results@[i] by {
            assert(rest[i] == old[i]);
        }
        assert(decreases_to!(whole => whole->Subproof_results@[k]));
        if old[k].is_success() {
            lemma_proof_steps_filter_idempotent(whole, rest, new);
        } else {
            let y = new[new.len() - 1];
            let nrest = new.subrange(0, new.len() - 1);
            lemma_proof_steps_filter_idempotent(whole, rest, nrest);
            lemma_proof_step_filter_keeps_success(old[k], y, false);
            lemma_proof_step_filter_idempotent(old[k], y, false);
        }
    }
}

/// Filtering an element of a document again gives it back.
pub proof fn lemma_check_filter_idempotent(before: CheckResult, after: CheckResult, preserve_siblings: bool)
    requires
        before.filtered_to(after, preserve_siblings),
    ensures
        after.filtered_to(after, preserve_siblings),
{
    assert forall|a: ContentCheckResult, b: ContentCheckResult, q: bool|
        #[trigger] content_rel()(a, b, q) implies content_ok()(b) == content_ok()(a) && content_rel()(
        b,
        b,
        q,
    ) by {
        match (a, b) {
            (ContentCheckResult::Symbol(_, x), ContentCheckResult::Symbol(_, y)) => {
                lemma_symbol_filter_keeps_success(x, y, q);
                lemma_symbol_filter_idempotent(x, y, q);
            },
        }
    }
    match before {
        CheckResult::Module { checks, .. } => {
            lemma_list_filtered_idempotent(
                checks@,
                after->checks@,
                preserve_siblings,
                content_ok(),
                content_rel(),
            );
        },
        CheckResult::Proof(_, s) => {
            let os = s@;
            let ns = after->Proof_1@;
            if preserve_siblings {
                assert forall|i: int|
                    #![trigger ns[i]]
                    0 <= i < ns.len() implies ns[i].filtered_to(ns[i], !ns[i].is_success()) by {
                    lemma_proof_step_filter_keeps_success(os[i], ns[i], !os[i].is_success());
                    lemma_proof_step_filter_idempotent(os[i], ns[i], !os[i].is_success());
                }
            } else {
                let whole = ProofStepResult::Subproof { uri: arbitrary(), var: None, results: s };
                lemma_proof_steps_filter_idempotent(whole, os, ns);
            }
        },
        CheckResult::Variable(_, x) => {
            lemma_symbol_filter_idempotent(x, after->Variable_1, preserve_siblings);
        },
        CheckResult::Term { log, .. } => {
            lemma_filter_idempotent(log, after->Term_log, preserve_siblings);
        },
        CheckResult::Content(ContentCheckResult::Symbol(_, x)) => {
            match after {
                CheckResult::Content(ContentCheckResult::Symbol(_, y)) => {
                    lemma_symbol_filter_idempotent(x, y, preserve_siblings);
                },
                _ => {},
            }
        },
        _ => {},
    }
}

/// Filtering a document is idempotent: filtering the filtered document
/// again gives it back.
pub proof fn lemma_document_filter_idempotent(
    before: DocumentCheckResult,
    after: DocumentCheckResult,
    preserve_siblings: bool,
)
    requires
        before.filtered_to(after, preserve_siblings),
    ensures
        after.filtered_to(after, preserve_siblings),
{
    assert forall|a: CheckResult, b: CheckResult, q: bool|
        #[trigger] check_rel()(a, b, q) implies check_ok()(b) == check_ok()(a) && check_rel()(b, b, q) by {
        lemma_check_filter_keeps_success(a, b, q);
        lemma_check_filter_idempotent(a, b, q);
    }
    lemma_list_filtered_idempotent(
        before.checks@,
        after.checks@,
        preserve_siblings,
        check_ok(),
        check_rel(),
    );
}

/// A type check filtered keeps its outcome, and its log is its log
/// filtered the same way on its own.
pub proof fn lemma_type_check_filter_is_log_filter(
    before: TypeCheckResult,
    after: TypeCheckResult,
    log: CheckLog,
    preserve_siblings: bool,
)
    requires
        before.filtered_to(after, preserve_siblings),
        before.log.filtered_to(log, preserve_siblings),
    ensures
        after.success == before.success,
        same_log(after.log, log),
{
    lemma_filter_deterministic(before.log, after.log, log, preserve_siblings);
}

} // verus!
