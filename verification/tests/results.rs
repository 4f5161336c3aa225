use flams::{
    CheckLog, CheckResult, ContentCheckResult, DocumentCheckResult, ProofStepCheckResult,
    ProofStepResult, SymbolCheckResult, Term, TypeCheckResult, Uri,
};

fn uri(s: &str) -> Uri {
    Uri::Other(s.to_string())
}

fn strategy(name: &str, success: bool, steps: Vec<CheckLog>) -> CheckLog {
    CheckLog::Strategy { name: name.to_string(), steps, success }
}

fn log(success: bool) -> CheckLog {
    strategy("top", success, vec![strategy("good", true, vec![]), strategy("bad", false, vec![])])
}

fn names(steps: &[CheckLog]) -> Vec<String> {
    steps
        .iter()
        .map(|s| match s {
            CheckLog::Strategy { name, .. } => name.clone(),
            _ => panic!("not a strategy"),
        })
        .collect()
}

fn tc(success: bool) -> TypeCheckResult {
    TypeCheckResult { success, log: log(success) }
}

fn term(s: &str) -> Term {
    Term { short: s.to_string() }
}

#[test]
fn success_of_symbol_checks() {
    assert!(SymbolCheckResult::TypeOnly { result: tc(true) }.success());
    assert!(!SymbolCheckResult::TypeOnly { result: tc(false) }.success());
    assert!(SymbolCheckResult::DefiniensOnly { inferred: Some(term("A")), log: log(true) }.success());
    assert!(!SymbolCheckResult::DefiniensOnly { inferred: None, log: log(true) }.success());
    assert!(!SymbolCheckResult::Both { inhabitable: tc(true), matches: None }.success());
    assert!(SymbolCheckResult::Both { inhabitable: tc(true), matches: Some(tc(true)) }.success());
    assert!(!SymbolCheckResult::Both { inhabitable: tc(false), matches: Some(tc(true)) }.success());
}

#[test]
fn success_of_proof_steps() {
    let ok = ProofStepResult::Step { var: None, result: ProofStepCheckResult::GoalOnly { result: tc(true) } };
    let bad = ProofStepResult::Conclusion {
        var: None,
        result: ProofStepCheckResult::ProofOnly { inferred: None, log: log(false) },
    };
    assert!(ok.success());
    assert!(!bad.success());
    let sub = ProofStepResult::Subproof { uri: uri("p"), var: None, results: vec![ok, bad] };
    assert!(!sub.success());
    let empty = ProofStepResult::Subproof { uri: uri("p"), var: None, results: vec![] };
    assert!(empty.success());
}

fn document() -> DocumentCheckResult {
    DocumentCheckResult {
        uri: uri("doc"),
        checks: vec![
            CheckResult::Variable(uri("v"), SymbolCheckResult::TypeOnly { result: tc(true) }),
            CheckResult::Missing(uri("m")),
            CheckResult::Term { uri: uri("t"), inferred: None, log: log(false) },
        ],
    }
}

#[test]
fn a_document_succeeds_when_every_check_does() {
    assert!(!document().success());
    let ok = DocumentCheckResult {
        uri: uri("doc"),
        checks: vec![CheckResult::Content(ContentCheckResult::Symbol(
            uri("s"),
            SymbolCheckResult::TypeOnly { result: tc(true) },
        ))],
    };
    assert!(ok.success());
    assert!(DocumentCheckResult { uri: uri("d"), checks: vec![] }.success());
}

#[test]
fn filtering_a_document_keeps_only_its_failures() {
    let mut d = document();
    d.filter_failures(false);
    assert_eq!(d.checks.len(), 2);
    assert!(matches!(&d.checks[0], CheckResult::Missing(Uri::Other(s)) if s == "m"));
    match &d.checks[1] {
        CheckResult::Term { log: CheckLog::Strategy { steps, .. }, inferred: None, .. } => {
            assert_eq!(names(steps), vec!["bad"]);
        }
        _ => panic!("expected the failed term"),
    }
    assert!(!d.success());
}

#[test]
fn filtering_a_document_with_siblings_keeps_every_check() {
    let mut d = document();
    d.filter_failures(true);
    assert_eq!(d.checks.len(), 3);
    match &d.checks[0] {
        CheckResult::Variable(_, SymbolCheckResult::TypeOnly { result }) => match &result.log {
            CheckLog::Strategy { steps, .. } => assert_eq!(names(steps), vec!["bad"]),
            _ => panic!("expected the strategy"),
        },
        _ => panic!("expected the variable"),
    }
    match &d.checks[2] {
        CheckResult::Term { log: CheckLog::Strategy { steps, .. }, .. } => {
            assert_eq!(names(steps), vec!["good", "bad"]);
        }
        _ => panic!("expected the term"),
    }
}

#[test]
fn filtering_a_successful_document_leaves_nothing() {
    let mut d = DocumentCheckResult {
        uri: uri("doc"),
        checks: vec![CheckResult::Term { uri: uri("t"), inferred: Some(term("A")), log: log(true) }],
    };
    d.filter_failures(false);
    assert!(d.checks.is_empty());
    assert!(d.success());
}

#[test]
fn filtering_proofs_and_modules() {
    let ok = ProofStepResult::Step { var: None, result: ProofStepCheckResult::GoalOnly { result: tc(true) } };
    let bad = ProofStepResult::Assumption {
        var: Some(uri("x")),
        result: ProofStepCheckResult::Both { inhabitable: tc(false), matches: None },
    };
    let mut p = CheckResult::Proof(uri("p"), vec![ok, bad]);
    p.filter_failures(false);
    match &p {
        CheckResult::Proof(_, steps) => {
            assert_eq!(steps.len(), 1);
            assert!(matches!(&steps[0], ProofStepResult::Assumption { var: Some(_), .. }));
        }
        _ => panic!("expected the proof"),
    }
    let mut m = CheckResult::Module {
        uri: uri("m"),
        checks: vec![
            ContentCheckResult::Symbol(uri("a"), SymbolCheckResult::TypeOnly { result: tc(false) }),
            ContentCheckResult::Symbol(uri("b"), SymbolCheckResult::TypeOnly { result: tc(true) }),
        ],
    };
    assert!(!m.success());
    m.filter_failures(false);
    match &m {
        CheckResult::Module { checks, .. } => {
            assert_eq!(checks.len(), 1);
            assert!(matches!(&checks[0], ContentCheckResult::Symbol(Uri::Other(s), _) if s == "a"));
        }
        _ => panic!("expected the module"),
    }
}

#[test]
fn a_missing_module_is_shown_as_a_failure() {
    assert_eq!(CheckResult::Missing(uri("m")).display::<()>(), "[FAILED] \nMissing module: m\n");
}

#[test]
fn the_report_after_a_check() {
    let ok = || DocumentCheckResult {
        uri: uri("doc"),
        checks: vec![CheckResult::Term { uri: uri("t"), inferred: Some(term("A")), log: log(true) }],
    };
    let empty = DocumentCheckResult { uri: uri("doc"), checks: vec![] };
    assert_eq!(ok().report(true), empty.colored());
    assert_eq!(ok().report(false), ok().colored());
    let mut filtered = document();
    filtered.filter_failures(false);
    assert_eq!(document().report(true), filtered.colored());
}

#[test]
fn filtering_a_document_twice_changes_nothing_more() {
    for keep in [false, true] {
        let mut once = document();
        once.filter_failures(keep);
        let mut twice = document();
        twice.filter_failures(keep);
        twice.filter_failures(keep);
        assert_eq!(once.display::<()>(), twice.display::<()>());
    }
}

#[test]
fn a_type_check_filters_as_its_log_does() {
    let mut r = tc(false);
    r.filter_failures(false);
    let mut l = log(false);
    l.filter_failures(false);
    assert!(!r.success);
    assert_eq!(r.log.display::<()>(), l.display::<()>());
}
