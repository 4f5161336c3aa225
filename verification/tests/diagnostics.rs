use flams::{symbol_check_diagnostic, CheckLog, CheckedPart, SymbolCheckResult, Term, TypeCheckResult};

fn tc(success: bool) -> TypeCheckResult {
    TypeCheckResult { success, log: CheckLog::Strategy { name: "s".to_string(), steps: vec![], success } }
}

fn diag(r: &SymbolCheckResult) -> Option<(CheckedPart, String)> {
    symbol_check_diagnostic(r, "foo", "TP", "DF").map(|d| (d.part, d.message))
}

#[test]
fn successful_symbols_give_no_diagnostic() {
    assert!(diag(&SymbolCheckResult::TypeOnly { result: tc(true) }).is_none());
    assert!(diag(&SymbolCheckResult::DefiniensOnly {
        inferred: Some(Term { short: "A".to_string() }),
        log: CheckLog::Header(vec![]),
    })
    .is_none());
    assert!(diag(&SymbolCheckResult::Both { inhabitable: tc(false), matches: Some(tc(true)) }).is_none());
}

#[test]
fn failed_types_and_definientia_are_reported() {
    let d = diag(&SymbolCheckResult::TypeOnly { result: tc(false) }).unwrap();
    assert!(d.0 == CheckedPart::Type);
    assert_eq!(d.1, "checking type of foo failed");
    let d = diag(&SymbolCheckResult::DefiniensOnly { inferred: None, log: CheckLog::Header(vec![]) }).unwrap();
    assert!(d.0 == CheckedPart::Definiens);
    assert_eq!(d.1, "checking definiens of foo failed (DF)");
    let d = diag(&SymbolCheckResult::Both { inhabitable: tc(true), matches: None }).unwrap();
    assert!(d.0 == CheckedPart::Type);
    assert_eq!(d.1, "checking type of foo failed (TP)");
    let d = diag(&SymbolCheckResult::Both { inhabitable: tc(true), matches: Some(tc(false)) }).unwrap();
    assert!(d.0 == CheckedPart::Definiens);
    assert_eq!(d.1, "checking definiens of foo failed");
}
