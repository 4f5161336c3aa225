use crate::render::{FmtTraceDisplay, log_text, put_log, put_string, put_uri, string_text, uri_text};
use crate::results::{
    CheckResult, ContentCheckResult, DocumentCheckResult, ProofStepCheckResult, ProofStepResult,
    SymbolCheckResult, TypeCheckResult,
};
use crate::trace::{CheckLog, MessageLevel, Uri};
use vstd::prelude::*;

verus! {

// The text of check results as a trace displayer writes them: a header line
// for each checked element, then the logs of its checks.

/// A header piece.
pub open spec fn header_text(colored: bool, s: Seq<char>) -> Seq<char> {
    string_text(colored, s, Some(MessageLevel::Header))
}

/// The line break that closes a header.
pub open spec fn newline_text(colored: bool) -> Seq<char> {
    string_text(colored, "\n"@, None)
}

/// A URI where there is one.
pub open spec fn opt_uri_text(u: Option<Uri>) -> Seq<char> {
    match u {
        Some(u) => uri_text(u),
        None => Seq::empty(),
    }
}

/// A type check: its log.
pub open spec fn type_check_text(colored: bool, r: TypeCheckResult) -> Seq<char> {
    log_text(colored, r.log, 0)
}

/// An optional type check.
pub open spec fn opt_type_check_text(colored: bool, r: Option<TypeCheckResult>) -> Seq<char> {
    match r {
        Some(r) => type_check_text(colored, r),
        None => Seq::empty(),
    }
}

/// A symbol check: the logs of its checks, in order.
pub open spec fn symbol_text(colored: bool, r: SymbolCheckResult) -> Seq<char> {
    match r {
        SymbolCheckResult::TypeOnly { result } => type_check_text(colored, result),
        SymbolCheckResult::DefiniensOnly { log, .. } => log_text(colored, log, 0),
        SymbolCheckResult::Both { inhabitable, matches } => type_check_text(colored, inhabitable)
            + opt_type_check_text(colored, matches),
    }
}

/// A proof step check: the logs of its checks, in order.
pub open spec fn proof_step_check_text(colored: bool, r: ProofStepCheckResult) -> Seq<char> {
    match r {
        ProofStepCheckResult::GoalOnly { result } => type_check_text(colored, result),
        ProofStepCheckResult::ProofOnly { log, .. } => log_text(colored, log, 0),
        ProofStepCheckResult::Both { inhabitable, matches } => type_check_text(colored, inhabitable)
            + opt_type_check_text(colored, matches),
    }
}

/// A declaration: its header, then its symbol's checks.
pub open spec fn content_text(colored: bool, r: ContentCheckResult) -> Seq<char> {
    match r {
        ContentCheckResult::Symbol(u, s) => header_text(colored, "\nChecking symbol "@) + uri_text(u)
            + newline_text(colored) + symbol_text(colored, s),
    }
}

/// Declarations, one after the other.
pub open spec fn contents_text(colored: bool, s: Seq<ContentCheckResult>) -> Seq<char>
    decreases s.len(),
{
    if s.len() == 0 {
        Seq::empty()
    } else {
        contents_text(colored, s.drop_last()) + content_text(colored, s.last())
    }
}

/// The header and check of a proof step.
pub open spec fn proof_step_head_text(
    colored: bool,
    kind: Seq<char>,
    var: Option<Uri>,
    result: ProofStepCheckResult,
) -> Seq<char> {
    header_text(colored, kind) + opt_uri_text(var) + newline_text(colored) + proof_step_check_text(
        colored,
        result,
    )
}

/// A proof step: its header and check; a subproof: its header, then its
/// steps.
pub open spec fn proof_step_text(colored: bool, r: ProofStepResult) -> Seq<char>
    decreases r,
{
    match r {
        ProofStepResult::Assumption { var, result } => proof_step_head_text(
            colored,
            "\nChecking Assumption "@,
            var,
            result,
        ),
        ProofStepResult::Conclusion { var, result } => proof_step_head_text(
            colored,
            "\nChecking Conclusion "@,
            var,
            result,
        ),
        ProofStepResult::Step { var, result } => proof_step_head_text(
            colored,
            "\nChecking Step "@,
            var,
            result,
        ),
        ProofStepResult::Subproof { uri, var, results } => header_text(
            colored,
            "\nChecking Subproof "@,
        ) + uri_text(uri) + (match var {
            Some(v) => header_text(colored, " = "@) + uri_text(v),
            None => Seq::empty(),
        }) + newline_text(colored) + proof_steps_text(colored, results@),
    }
}

/// Proof steps, one after the other.
pub open spec fn proof_steps_text(colored: bool, s: Seq<ProofStepResult>) -> Seq<char>
    decreases s,
{
    if s.len() == 0 {
        Seq::empty()
    } else {
        proof_steps_text(colored, s.subrange(0, s.len() - 1)) + proof_step_text(
            colored,
            s[s.len() - 1],
        )
    }
}

/// An element of a document: a header naming it, then its checks; a
/// missing module is reported as a failure.
pub open spec fn check_result_text(colored: bool, r: CheckResult) -> Seq<char> {
    match r {
        CheckResult::Missing(u) => string_text(
            colored,
            "\nMissing module: "@,
            Some(MessageLevel::Failure),
        ) + uri_text(u) + newline_text(colored),
        CheckResult::Module { uri, checks } => header_text(colored, "\nChecking module "@) + uri_text(
            uri,
        ) + newline_text(colored) + contents_text(colored, checks@),
        CheckResult::Variable(uri, s) => header_text(colored, "\nChecking variable "@) + uri_text(uri)
            + newline_text(colored) + symbol_text(colored, s),
        CheckResult::Term { uri, log, .. } => header_text(colored, "\nChecking term "@) + uri_text(
            uri,
        ) + newline_text(colored) + log_text(colored, log, 0),
        CheckResult::Content(c) => content_text(colored, c),
        CheckResult::Proof(uri, steps) => header_text(colored, "\nChecking proof "@) + uri_text(uri)
            + newline_text(colored) + proof_steps_text(colored, steps@),
    }
}

/// Elements of a document, one after the other.
pub open spec fn check_results_text(colored: bool, s: Seq<CheckResult>) -> Seq<char>
    decreases s.len(),
{
    if s.len() == 0 {
        Seq::empty()
    } else {
        check_results_text(colored, s.drop_last()) + check_result_text(colored, s.last())
    }
}

/// A document: a header naming it, then its elements.
pub open spec fn document_text(colored: bool, d: DocumentCheckResult) -> Seq<char> {
    header_text(colored, "Checking document "@) + uri_text(d.uri) + newline_text(colored)
        + check_results_text(colored, d.checks@)
}

fn put_header(out: &mut String, colored: bool, s: &str, u: &Uri)
    ensures
        final(out)@ == old(out)@ + header_text(colored, s@) + uri_text(*u) + newline_text(colored),
{
    put_string(out, colored, s, Some(MessageLevel::Header));
    put_uri(out, u);
    put_string(out, colored, "\n", None);
}

fn put_type_check(out: &mut String, colored: bool, r: &TypeCheckResult)
    ensures
        final(out)@ == old(out)@ + type_check_text(colored, *r),
{
    put_log(out, colored, &r.log, 0);
}

fn put_opt_type_check(out: &mut String, colored: bool, r: &Option<TypeCheckResult>)
    ensures
        final(out)@ == old(out)@ + opt_type_check_text(colored, *r),
{
    if let Some(r) = r {
        put_type_check(out, colored, r);
    }
}

fn put_symbol(out: &mut String, colored: bool, r: &SymbolCheckResult)
    ensures
        final(out)@ == old(out)@ + symbol_text(colored, *r),
{
    match r {
        SymbolCheckResult::TypeOnly { result } => put_type_check(out, colored, result),
        SymbolCheckResult::DefiniensOnly { log, .. } => put_log(out, colored, log, 0),
        SymbolCheckResult::Both { inhabitable, matches } => {
            put_type_check(out, colored, inhabitable);
            put_opt_type_check(out, colored, matches);
        },
    }
}

fn put_proof_step_check(out: &mut String, colored: bool, r: &ProofStepCheckResult)
    ensures
        final(out)@ == old(out)@ + proof_step_check_text(colored, *r),
{
    match r {
        ProofStepCheckResult::GoalOnly { result } => put_type_check(out, colored, result),
        ProofStepCheckResult::ProofOnly { log, .. } => put_log(out, colored, log, 0),
        ProofStepCheckResult::Both { inhabitable, matches } => {
            put_type_check(out, colored, inhabitable);
            put_opt_type_check(out, colored, matches);
        },
    }
}

fn put_content(out: &mut String, colored: bool, r: &ContentCheckResult)
    ensures
        final(out)@ == old(out)@ + content_text(colored, *r),
{
    match r {
        ContentCheckResult::Symbol(u, s) => {
            put_header(out, colored, "\nChecking symbol ", u);
            put_symbol(out, colored, s);
        },
    }
}

fn put_contents(out: &mut String, colored: bool, s: &Vec<ContentCheckResult>)
    ensures
        final(out)@ == old(out)@ + contents_text(colored, s@),
{
    let ghost start = out@;
    let mut i: usize = 0;
    while i < s.len()
        invariant
            i <= s@.len(),
            out@ == start + contents_text(colored, s@.take(i as int)),
        decreases s@.len() - i,
    {
        proof {
            assert(s@.take(i + 1).drop_last() =~= s@.take(i as int));
        }
        put_content(out, colored, &s[i]);
        i = i + 1;
    }
    proof {
        assert(s@.take(s@.len() as int) =~= s@);
    }
}

fn put_proof_step_head(
    out: &mut String,
    colored: bool,
    kind: &str,
    var: &Option<Uri>,
    result: &ProofStepCheckResult,
)
    ensures
        final(out)@ == old(out)@ + proof_step_head_text(colored, kind@, *var, *result),
{
    put_string(out, colored, kind, Some(MessageLevel::Header));
    if let Some(v) = var {
        put_uri(out, v);
    }
    put_string(out, colored, "\n", None);
    put_proof_step_check(out, colored, result);
}

#[verifier::spinoff_prover]
#[verifier::rlimit(50)]
fn put_proof_step(out: &mut String, colored: bool, r: &ProofStepResult)
    ensures
        final(out)@ == old(out)@ + proof_step_text(colored, *r),
    decreases r,
{
    match r {
        ProofStepResult::Assumption { var, result } => put_proof_step_head(
            out,
            colored,
            "\nChecking Assumption ",
            var,
            result,
        ),
        ProofStepResult::Conclusion { var, result } => put_proof_step_head(
            out,
            colored,
            "\nChecking Conclusion ",
            var,
            result,
        ),
        ProofStepResult::Step { var, result } => put_proof_step_head(
            out,
            colored,
            "\nChecking Step ",
            var,
            result,
        ),
        ProofStepResult::Subproof { uri, var, results } => {
            put_string(out, colored, "\nChecking Subproof ", Some(MessageLevel::Header));
            put_uri(out, uri);
            if let Some(v) = var {
                put_string(out, colored, " = ", Some(MessageLevel::Header));
                put_uri(out, v);
            }
            put_string(out, colored, "\n", None);
            let ghost mid = out@;
            let mut i: usize = 0;
            #[verifier::loop_isolation(false)]
            while i < results.len()
                invariant
                    i <= results@.len(),
                    out@ == mid + proof_steps_text(colored, results@.take(i as int)),
                decreases results@.len() - i,
            {
                proof {
                    assert(decreases_to!(r => results@[i as int]));
                    assert(results@.take(i + 1).subrange(0, i as int) =~= results@.take(i as int));
                }
                put_proof_step(out, colored, &results[i]);
                i = i + 1;
            }
            proof {
                assert(results@.take(results@.len() as int) =~= results@);
            }
        },
    }
}

fn put_proof_steps(out: &mut String, colored: bool, s: &Vec<ProofStepResult>)
    ensures
        final(out)@ == old(out)@ + proof_steps_text(colored, s@),
{
    let ghost start = out@;
    let mut i: usize = 0;
    while i < s.len()
        invariant
            i <= s@.len(),
            out@ == start + proof_steps_text(colored, s@.take(i as int)),
        decreases s@.len() - i,
    {
        proof {
            assert(s@.take(i + 1).subrange(0, i as int) =~= s@.take(i as int));
        }
        put_proof_step(out, colored, &s[i]);
        i = i + 1;
    }
    proof {
        assert(s@.take(s@.len() as int) =~= s@);
    }
}

fn put_check_result(out: &mut String, colored: bool, r: &CheckResult)
    ensures
        final(out)@ == old(out)@ + check_result_text(colored, *r),
{
    match r {
        CheckResult::Missing(u) => {
            put_string(out, colored, "\nMissing module: ", Some(MessageLevel::Failure));
            put_uri(out, u);
            put_string(out, colored, "\n", None);
        },
        CheckResult::Module { uri, checks } => {
            put_header(out, colored, "\nChecking module ", uri);
            put_contents(out, colored, checks);
        },
        CheckResult::Variable(uri, s) => {
            put_header(out, colored, "\nChecking variable ", uri);
            put_symbol(out, colored, s);
        },
        CheckResult::Term { uri, log, .. } => {
            put_header(out, colored, "\nChecking term ", uri);
            put_log(out, colored, log, 0);
        },
        CheckResult::Content(c) => put_content(out, colored, c),
        CheckResult::Proof(uri, steps) => {
            put_header(out, colored, "\nChecking proof ", uri);
            put_proof_steps(out, colored, steps);
        },
    }
}

fn put_document(out: &mut String, colored: bool, d: &DocumentCheckResult)
    ensures
        final(out)@ == old(out)@ + document_text(colored, *d),
{
    put_header(out, colored, "Checking document ", &d.uri);
    let ghost mid = out@;
    let mut i: usize = 0;
    while i < d.checks.len()
        invariant
            i <= d.checks@.len(),
            out@ == mid + check_results_text(colored, d.checks@.take(i as int)),
        decreases d.checks@.len() - i,
    {
        proof {
            assert(d.checks@.take(i + 1).drop_last() =~= d.checks@.take(i as int));
        }
        put_check_result(out, colored, &d.checks[i]);
        i = i + 1;
    }
    proof {
        assert(d.checks@.take(d.checks@.len() as int) =~= d.checks@);
    }
}

impl TypeCheckResult {
    /// The log of this check as text; `D` says whether it is coloured.
    pub fn display<D: FmtTraceDisplay>(&self) -> (r: String)
        ensures
            r@ == type_check_text(D::is_colored(), *self),
    {
        let mut out = String::new();
        put_type_check(&mut out, D::colored(), self);
        out
    }

    /// The log of this check as ANSI-coloured text.
    pub fn colored(&self) -> (r: String)
        ensures
            r@ == type_check_text(true, *self),
    {
        let mut out = String::new();
        put_type_check(&mut out, true, self);
        out
    }
}

impl SymbolCheckResult {
    /// The logs of this check as text; `D` says whether it is coloured.
    pub fn display<D: FmtTraceDisplay>(&self) -> (r: String)
        ensures
            r@ == symbol_text(D::is_colored(), *self),
    {
        let mut out = String::new();
        put_symbol(&mut out, D::colored(), self);
        out
    }

    /// The logs of this check as ANSI-coloured text.
    pub fn colored(&self) -> (r: String)
        ensures
            r@ == symbol_text(true, *self),
    {
        let mut out = String::new();
        put_symbol(&mut out, true, self);
        out
    }
}

impl ProofStepCheckResult {
    /// The logs of this check as text; `D` says whether it is coloured.
    pub fn display<D: FmtTraceDisplay>(&self) -> (r: String)
        ensures
            r@ == proof_step_check_text(D::is_colored(), *self),
    {
        let mut out = String::new();
        put_proof_step_check(&mut out, D::colored(), self);
        out
    }

    /// The logs of this check as ANSI-coloured text.
    pub fn colored(&self) -> (r: String)
        ensures
            r@ == proof_step_check_text(true, *self),
    {
        let mut out = String::new();
        put_proof_step_check(&mut out, true, self);
        out
    }
}

impl ContentCheckResult {
    /// This result as text; `D` says whether it is coloured.
    pub fn display<D: FmtTraceDisplay>(&self) -> (r: String)
        ensures
            r@ == content_text(D::is_colored(), *self),
    {
        let mut out = String::new();
        put_content(&mut out, D::colored(), self);
        out
    }

    /// This result as ANSI-coloured text.
    pub fn colored(&self) -> (r: String)
        ensures
            r@ == content_text(true, *self),
    {
        let mut out = String::new();
        put_content(&mut out, true, self);
        out
    }
}

impl ProofStepResult {
    /// This result as text; `D` says whether it is coloured.
    pub fn display<D: FmtTraceDisplay>(&self) -> (r: String)
        ensures
            r@ == proof_step_text(D::is_colored(), *self),
    {
        let mut out = String::new();
        put_proof_step(&mut out, D::colored(), self);
        out
    }

    /// This result as ANSI-coloured text.
    pub fn colored(&self) -> (r: String)
        ensures
            r@ == proof_step_text(true, *self),
    {
        let mut out = String::new();
        put_proof_step(&mut out, true, self);
        out
    }
}

impl CheckResult {
    /// This result as text; `D` says whether it is coloured.
    pub fn display<D: FmtTraceDisplay>(&self) -> (r: String)
        ensures
            r@ == check_result_text(D::is_colored(), *self),
    {
        let mut out = String::new();
        put_check_result(&mut out, D::colored(), self);
        out
    }

    /// This result as ANSI-coloured text.
    pub fn colored(&self) -> (r: String)
        ensures
            r@ == check_result_text(true, *self),
    {
        let mut out = String::new();
        put_check_result(&mut out, true, self);
        out
    }
}

impl DocumentCheckResult {
    /// This result as text; `D` says whether it is coloured.
    pub fn display<D: FmtTraceDisplay>(&self) -> (r: String)
        ensures
            r@ == document_text(D::is_colored(), *self),
    {
        let mut out = String::new();
        put_document(&mut out, D::colored(), self);
        out
    }

    /// This result as ANSI-coloured text.
    pub fn colored(&self) -> (r: String)
        ensures
            r@ == document_text(true, *self),
    {
        let mut out = String::new();
        put_document(&mut out, true, self);
        out
    }

    /// The report printed after checking a document: the result in colour,
    /// cut down to its failures when `truncate` asks for that.
    pub fn report(self, truncate: bool) -> (r: String)
        ensures
            exists|shown: DocumentCheckResult|
                (if truncate {
                    self.filtered_to(shown, false)
                } else {
                    shown == self
                }) && r@ == document_text(true, shown),
    {
        let mut d = self;
        if truncate {
            d.filter_failures(false);
        }
        d.colored()
    }
}

/// The logs a symbol check holds, in order.
pub open spec fn symbol_logs(r: SymbolCheckResult) -> Seq<CheckLog> {
    match r {
        SymbolCheckResult::TypeOnly { result } => seq![result.log],
        SymbolCheckResult::DefiniensOnly { log, .. } => seq![log],
        SymbolCheckResult::Both { inhabitable, matches } => seq![inhabitable.log] + match matches {
            Some(m) => seq![m.log],
            None => Seq::empty(),
        },
    }
}

/// The logs a proof step check holds, in order.
pub open spec fn proof_check_logs(r: ProofStepCheckResult) -> Seq<CheckLog> {
    match r {
        ProofStepCheckResult::GoalOnly { result } => seq![result.log],
        ProofStepCheckResult::ProofOnly { log, .. } => seq![log],
        ProofStepCheckResult::Both { inhabitable, matches } => seq![inhabitable.log] + match matches {
            Some(m) => seq![m.log],
            None => Seq::empty(),
        },
    }
}

/// Logs rendered one after the other, each from the top.
pub open spec fn logs_shown(colored: bool, s: Seq<CheckLog>) -> Seq<char>
    decreases s.len(),
{
    if s.len() == 0 {
        Seq::empty()
    } else {
        logs_shown(colored, s.drop_last()) + log_text(colored, s.last(), 0)
    }
}

/// `small` stands somewhere in `big`.
pub open spec fn infix(small: Seq<char>, big: Seq<char>) -> bool {
    exists|k: int| 0 <= k && k + small.len() <= big.len() && #[trigger] big.subrange(k, k + small.len()) == small
}

proof fn lemma_infix_in(a: Seq<char>, x: Seq<char>, b: Seq<char>)
    ensures
        infix(x, a + x + b),
{
    let w = a + x + b;
    assert(w.subrange(a.len() as int, (a.len() + x.len()) as int) =~= x);
}

proof fn lemma_infix_trans(x: Seq<char>, y: Seq<char>, z: Seq<char>)
    requires
        infix(x, y),
        infix(y, z),
    ensures
        infix(x, z),
{
    let k1 = choose|k: int| 0 <= k && k + x.len() <= y.len() && #[trigger] y.subrange(k, k + x.len()) == x;
    let k2 = choose|k: int| 0 <= k && k + y.len() <= z.len() && #[trigger] z.subrange(k, k + y.len()) == y;
    assert(z.subrange(k2 + k1, k2 + k1 + x.len()) =~= y.subrange(k1, k1 + x.len()));
}

proof fn lemma_infix_self(x: Seq<char>)
    ensures
        infix(x, x),
{
    lemma_infix_in(Seq::empty(), x, Seq::empty());
    assert(Seq::<char>::empty() + x + Seq::<char>::empty() =~= x);
}

proof fn lemma_logs_shown_each(colored: bool, s: Seq<CheckLog>, i: int)
    requires
        0 <= i < s.len(),
    ensures
        infix(log_text(colored, s[i], 0), logs_shown(colored, s)),
    decreases s.len(),
{
    if i == s.len() - 1 {
        lemma_infix_in(logs_shown(colored, s.drop_last()), log_text(colored, s[i], 0), Seq::empty());
        assert(logs_shown(colored, s.drop_last()) + log_text(colored, s[i], 0) + Seq::<char>::empty()
            =~= logs_shown(colored, s));
    } else {
        lemma_logs_shown_each(colored, s.drop_last(), i);
        lemma_infix_in(Seq::empty(), logs_shown(colored, s.drop_last()), log_text(colored, s.last(), 0));
        assert(Seq::<char>::empty() + logs_shown(colored, s.drop_last()) + log_text(colored, s.last(), 0)
            =~= logs_shown(colored, s));
        lemma_infix_trans(log_text(colored, s[i], 0), logs_shown(colored, s.drop_last()), logs_shown(colored, s));
    }
}

proof fn lemma_shown_one(colored: bool, x: CheckLog)
    ensures
        logs_shown(colored, seq![x]) == log_text(colored, x, 0),
{
    let s = seq![x];
    assert(s.len() == 1);
    assert(s.drop_last() =~= Seq::<CheckLog>::empty());
    assert(s.last() == x);
    assert(logs_shown(colored, Seq::<CheckLog>::empty()) == Seq::<char>::empty());
    assert(logs_shown(colored, s) == logs_shown(colored, s.drop_last()) + log_text(colored, s.last(), 0));
    assert(Seq::<char>::empty() + log_text(colored, x, 0) =~= log_text(colored, x, 0));
}

proof fn lemma_shown_two(colored: bool, x: CheckLog, y: CheckLog)
    ensures
        logs_shown(colored, seq![x] + seq![y]) == log_text(colored, x, 0) + log_text(colored, y, 0),
{
    let s = seq![x] + seq![y];
    assert(s.drop_last() =~= seq![x]);
    assert(s.last() == y);
    lemma_shown_one(colored, x);
}

proof fn lemma_shown_pair(colored: bool, x: CheckLog, m: Option<TypeCheckResult>)
    ensures
        logs_shown(colored, seq![x] + match m {
            Some(t) => seq![t.log],
            None => Seq::empty(),
        }) == log_text(colored, x, 0) + opt_type_check_text(colored, m),
{
    match m {
        Some(t) => lemma_shown_two(colored, x, t.log),
        None => {
            assert(seq![x] + Seq::<CheckLog>::empty() =~= seq![x]);
            lemma_shown_one(colored, x);
            assert(log_text(colored, x, 0) + Seq::<char>::empty() =~= log_text(colored, x, 0));
        },
    }
}

/// A symbol check is shown as the logs it holds, each from the top, one
/// after the other: the type check's, then the definiens check's where
/// there is one.
pub proof fn lemma_symbol_shows_its_logs(colored: bool, r: SymbolCheckResult)
    ensures
        symbol_text(colored, r) == logs_shown(colored, symbol_logs(r)),
        forall|i: int|
            0 <= i < symbol_logs(r).len() ==> infix(
                log_text(colored, #[trigger] symbol_logs(r)[i], 0),
                symbol_text(colored, r),
            ),
{
    match r {
        SymbolCheckResult::TypeOnly { result } => lemma_shown_one(colored, result.log),
        SymbolCheckResult::DefiniensOnly { log, .. } => lemma_shown_one(colored, log),
        SymbolCheckResult::Both { inhabitable, matches } => lemma_shown_pair(colored, inhabitable.log, matches),
    }
    let l = symbol_logs(r);
    assert forall|i: int| 0 <= i < l.len() implies infix(log_text(colored, #[trigger] l[i], 0), symbol_text(colored, r)) by {
        lemma_logs_shown_each(colored, l, i);
    }
}

/// A proof step check is shown as the logs it holds, in order.
pub proof fn lemma_proof_check_shows_its_logs(colored: bool, r: ProofStepCheckResult)
    ensures
        proof_step_check_text(colored, r) == logs_shown(colored, proof_check_logs(r)),
{
    match r {
        ProofStepCheckResult::GoalOnly { result } => lemma_shown_one(colored, result.log),
        ProofStepCheckResult::ProofOnly { log, .. } => lemma_shown_one(colored, log),
        ProofStepCheckResult::Both { inhabitable, matches } => lemma_shown_pair(colored, inhabitable.log, matches),
    }
}

proof fn lemma_contents_each(colored: bool, s: Seq<ContentCheckResult>, i: int)
    requires
        0 <= i < s.len(),
    ensures
        infix(content_text(colored, s[i]), contents_text(colored, s)),
    decreases s.len(),
{
    if i == s.len() - 1 {
        lemma_infix_in(contents_text(colored, s.drop_last()), content_text(colored, s[i]), Seq::empty());
        assert(contents_text(colored, s.drop_last()) + content_text(colored, s[i]) + Seq::<char>::empty()
            =~= contents_text(colored, s));
    } else {
        lemma_contents_each(colored, s.drop_last(), i);
        lemma_infix_in(Seq::empty(), contents_text(colored, s.drop_last()), content_text(colored, s.last()));
        assert(Seq::<char>::empty() + contents_text(colored, s.drop_last()) + content_text(colored, s.last())
            =~= contents_text(colored, s));
        lemma_infix_trans(content_text(colored, s[i]), contents_text(colored, s.drop_last()), contents_text(colored, s));
    }
}

proof fn lemma_steps_each(colored: bool, s: Seq<ProofStepResult>, i: int)
    requires
        0 <= i < s.len(),
    ensures
        infix(proof_step_text(colored, s[i]), proof_steps_text(colored, s)),
    decreases s.len(),
{
    let init = s.subrange(0, s.len() - 1);
    if i == s.len() - 1 {
        lemma_infix_in(proof_steps_text(colored, init), proof_step_text(colored, s[i]), Seq::empty());
        assert(proof_steps_text(colored, init) + proof_step_text(colored, s[i]) + Seq::<char>::empty()
            =~= proof_steps_text(colored, s));
    } else {
        lemma_steps_each(colored, init, i);
        assert(init[i] == s[i]);
        lemma_infix_in(Seq::empty(), proof_steps_text(colored, init), proof_step_text(colored, s[s.len() - 1]));
        assert(Seq::<char>::empty() + proof_steps_text(colored, init) + proof_step_text(colored, s[s.len() - 1])
            =~= proof_steps_text(colored, s));
        lemma_infix_trans(proof_step_text(colored, s[i]), proof_steps_text(colored, init), proof_steps_text(colored, s));
    }
}

proof fn lemma_results_each(colored: bool, s: Seq<CheckResult>, i: int)
    requires
        0 <= i < s.len(),
    ensures
        infix(check_result_text(colored, s[i]), check_results_text(colored, s)),
    decreases s.len(),
{
    if i == s.len() - 1 {
        lemma_infix_in(check_results_text(colored, s.drop_last()), check_result_text(colored, s[i]), Seq::empty());
        assert(check_results_text(colored, s.drop_last()) + check_result_text(colored, s[i])
            + Seq::<char>::empty() =~= check_results_text(colored, s));
    } else {
        lemma_results_each(colored, s.drop_last(), i);
        lemma_infix_in(Seq::empty(), check_results_text(colored, s.drop_last()), check_result_text(colored, s.last()));
        assert(Seq::<char>::empty() + check_results_text(colored, s.drop_last()) + check_result_text(
            colored,
            s.last(),
        ) =~= check_results_text(colored, s));
        lemma_infix_trans(check_result_text(colored, s[i]), check_results_text(colored, s.drop_last()), check_results_text(colored, s));
    }
}

/// The report on a document shows every element's report; the report on
/// an element shows every log it holds: a variable's and a declaration's
/// symbol checks, a term's log, each declaration of a module, each step of
/// a proof.
pub proof fn lemma_reports_show_everything(colored: bool, d: DocumentCheckResult, r: CheckResult, i: int, j: int)
    ensures
        0 <= i < d.checks@.len() ==> infix(check_result_text(colored, d.checks@[i]), document_text(colored, d)),
        (r matches CheckResult::Variable(_, s) && 0 <= j < symbol_logs(s).len()) ==> infix(
            log_text(colored, symbol_logs(r->Variable_1)[j], 0),
            check_result_text(colored, r),
        ),
        (r matches CheckResult::Content(ContentCheckResult::Symbol(_, s)) && 0 <= j < symbol_logs(s).len())
            ==> infix(
            log_text(colored, symbol_logs(r->Content_0->Symbol_1)[j], 0),
            check_result_text(colored, r),
        ),
        r matches CheckResult::Term { log, .. } ==> infix(log_text(colored, r->Term_log, 0), check_result_text(colored, r)),
        (r matches CheckResult::Module { checks, .. } && 0 <= j < checks@.len()) ==> infix(
            content_text(colored, r->Module_checks@[j]),
            check_result_text(colored, r),
        ),
        (r matches CheckResult::Proof(_, steps) && 0 <= j < steps@.len()) ==> infix(
            proof_step_text(colored, r->Proof_1@[j]),
            check_result_text(colored, r),
        ),
{
    if 0 <= i < d.checks@.len() {
        lemma_results_each(colored, d.checks@, i);
        let head = header_text(colored, "Checking document "@) + uri_text(d.uri) + newline_text(colored);
        lemma_infix_in(head, check_results_text(colored, d.checks@), Seq::empty());
        assert(head + check_results_text(colored, d.checks@) + Seq::<char>::empty() =~= document_text(colored, d));
        lemma_infix_trans(check_result_text(colored, d.checks@[i]), check_results_text(colored, d.checks@), document_text(colored, d));
    }
    match r {
        CheckResult::Variable(u, s) => {
            if 0 <= j < symbol_logs(s).len() {
                lemma_symbol_shows_its_logs(colored, s);
                let head = header_text(colored, "\nChecking variable "@) + uri_text(u) + newline_text(colored);
                lemma_infix_in(head, symbol_text(colored, s), Seq::empty());
                assert(head + symbol_text(colored, s) + Seq::<char>::empty() =~= check_result_text(colored, r));
                lemma_infix_trans(log_text(colored, symbol_logs(s)[j], 0), symbol_text(colored, s), check_result_text(colored, r));
            }
        },
        CheckResult::Content(ContentCheckResult::Symbol(u, s)) => {
            if 0 <= j < symbol_logs(s).len() {
                lemma_symbol_shows_its_logs(colored, s);
                let head = header_text(colored, "\nChecking symbol "@) + uri_text(u) + newline_text(colored);
                lemma_infix_in(head, symbol_text(colored, s), Seq::empty());
                assert(head + symbol_text(colored, s) + Seq::<char>::empty() =~= check_result_text(colored, r));
                lemma_infix_trans(log_text(colored, symbol_logs(s)[j], 0), symbol_text(colored, s), check_result_text(colored, r));
            }
        },
        CheckResult::Term { uri, log, .. } => {
            let head = header_text(colored, "\nChecking term "@) + uri_text(uri) + newline_text(colored);
            lemma_infix_in(head, log_text(colored, log, 0), Seq::empty());
            assert(head + log_text(colored, log, 0) + Seq::<char>::empty() =~= check_result_text(colored, r));
        },
        CheckResult::Module { uri, checks } => {
            if 0 <= j < checks@.len() {
                lemma_contents_each(colored, checks@, j);
                let head = header_text(colored, "\nChecking module "@) + uri_text(uri) + newline_text(colored);
                lemma_infix_in(head, contents_text(colored, checks@), Seq::empty());
                assert(head + contents_text(colored, checks@) + Seq::<char>::empty() =~= check_result_text(colored, r));
                lemma_infix_trans(content_text(colored, checks@[j]), contents_text(colored, checks@), check_result_text(colored, r));
            }
        },
        CheckResult::Proof(uri, steps) => {
            if 0 <= j < steps@.len() {
                lemma_steps_each(colored, steps@, j);
                let head = header_text(colored, "\nChecking proof "@) + uri_text(uri) + newline_text(colored);
                lemma_infix_in(head, proof_steps_text(colored, steps@), Seq::empty());
                assert(head + proof_steps_text(colored, steps@) + Seq::<char>::empty() =~= check_result_text(colored, r));
                lemma_infix_trans(proof_step_text(colored, steps@[j]), proof_steps_text(colored, steps@), check_result_text(colored, r));
            }
        },
        _ => {},
    }
}

} // verus!
