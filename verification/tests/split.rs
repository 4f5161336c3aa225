use flams::{
    collect_outcomes, combine_pair, no_rule_failures_mt, parallel_split_result, report_split, split, split_i_st,
    strategies_st, CancelToken, Cancellation, CheckLog, Displayable,
    RayonSplit, RayonStrategiesDepth, RayonStrategiesOnly, SingleThreadedSplit, SplitFailures,
    SplitStrategy,
};
use std::sync::atomic::AtomicBool;

fn fail(s: &str) -> CheckLog {
    CheckLog::Fail(vec![Displayable::String(s.to_string())])
}

fn fail_text(l: &CheckLog) -> String {
    match l {
        CheckLog::Fail(parts) => match &parts[0] {
            Displayable::String(s) => s.clone(),
            _ => panic!("not a text"),
        },
        _ => panic!("not a failure"),
    }
}

fn even_doubled(x: &u32) -> Result<u32, CheckLog> {
    if x % 2 == 0 { Ok(x * 2) } else { Err(fail(&format!("{x} is odd"))) }
}

#[test]
fn the_first_rule_that_applies_wins() {
    assert_eq!(split_i_st(true, vec![1, 3, 4, 6], even_doubled).ok(), Some(8));
}

#[test]
fn all_failures_come_back_in_order() {
    match split_i_st(true, vec![1, 3], even_doubled) {
        Err(v) => {
            let v = v.into_vec();
            assert_eq!(v.len(), 2);
            assert_eq!(fail_text(&v[0]), "1 is odd");
            assert_eq!(fail_text(&v[1]), "3 is odd");
        }
        Ok(_) => panic!("no rule applies"),
    }
}

#[test]
fn no_rules_give_the_no_rule_message_when_asked() {
    match split_i_st(true, Vec::<u32>::new(), even_doubled) {
        Err(v) => {
            let v = v.into_vec();
            assert_eq!(v.len(), 1);
            assert_eq!(fail_text(&v[0]), "No rule applicable (4)");
        }
        Ok(_) => panic!("no rules"),
    }
    match split_i_st(false, Vec::<u32>::new(), even_doubled) {
        Err(v) => assert!(v.into_vec().is_empty()),
        Ok(_) => panic!("no rules"),
    }
}

#[test]
fn reporting_a_split() {
    let mut msgs = vec![fail("before")];
    assert_eq!(report_split(&mut msgs, Ok::<u32, SplitFailures>(5)), Some(5));
    assert_eq!(msgs.len(), 1);
    let mut failures = SplitFailures::new();
    failures.push(fail("a"));
    failures.push(fail("b"));
    assert_eq!(report_split::<u32>(&mut msgs, Err(failures)), None);
    assert_eq!(msgs.len(), 3);
    assert_eq!(fail_text(&msgs[1]), "a");
    assert_eq!(fail_text(&msgs[2]), "b");
}

#[test]
fn split_reports_failures() {
    let mut msgs = Vec::new();
    assert_eq!(split(&mut msgs, true, vec![1, 2], even_doubled), Some(4));
    assert!(msgs.is_empty());
    assert_eq!(split(&mut msgs, true, vec![5, 7], even_doubled), None);
    assert_eq!(msgs.len(), 2);
    assert_eq!(fail_text(&msgs[0]), "5 is odd");
    assert_eq!(split(&mut msgs, true, Vec::new(), even_doubled), None);
    assert_eq!(msgs.len(), 3);
    assert_eq!(fail_text(&msgs[2]), "No rule applicable (4)");
}

#[test]
fn strategies_try_the_second_after_the_first() {
    let mut msgs = Vec::new();
    assert_eq!(strategies_st(&mut msgs, || Ok(1), || Ok(2)), Some(1));
    assert_eq!(strategies_st(&mut msgs, || Err(fail("a")), || Ok(2)), Some(2));
    assert!(msgs.is_empty());
    assert_eq!(strategies_st::<u32, _, _>(&mut msgs, || Err(fail("a")), || Err(fail("b"))), None);
    assert_eq!(msgs.len(), 2);
    assert_eq!(fail_text(&msgs[0]), "a");
    assert_eq!(fail_text(&msgs[1]), "b");
}

#[test]
fn cancelling_a_token_cancels_what_was_derived_from_it() {
    let root: CancelToken<AtomicBool> = CancelToken::new();
    let child = root.derive();
    let grandchild = child.derive();
    assert!(!root.is_cancelled());
    assert!(!grandchild.is_cancelled());
    root.cancel();
    assert!(root.is_cancelled());
    assert!(grandchild.is_cancelled());
    assert!(child.is_cancelled());
}

#[test]
fn cancelling_a_derived_token_leaves_its_parent() {
    let root: CancelToken<AtomicBool> = CancelToken::new();
    let child = root.derive();
    child.cancel();
    assert!(child.is_cancelled());
    assert!(!root.is_cancelled());
}

#[test]
fn a_unit_token_is_never_cancelled() {
    let root: CancelToken<()> = CancelToken::new();
    root.cancel();
    assert!(!root.is_cancelled());
    assert!(!root.derive().is_cancelled());
    let flag = AtomicBool::new(false);
    flag.cancel();
    assert!(flag.is_cancelled());
}

#[test]
fn strategies_of_splitting() {
    assert!(!SingleThreadedSplit::parallel_strategies(0));
    assert!(!SingleThreadedSplit::parallel_split());
    assert!(RayonStrategiesDepth::<2>::parallel_strategies(2));
    assert!(!RayonStrategiesDepth::<2>::parallel_strategies(3));
    assert!(!RayonStrategiesDepth::<2>::parallel_split());
    assert!(RayonStrategiesOnly::parallel_strategies(100));
    assert!(!RayonStrategiesOnly::parallel_split());
    assert!(RayonSplit::parallel_strategies(7));
    assert!(RayonSplit::parallel_split());
}

#[test]
fn a_parallel_split_without_rules() {
    let v = no_rule_failures_mt(true).into_vec();
    assert_eq!(v.len(), 1);
    assert_eq!(fail_text(&v[0]), "No rule applicable (5)");
    assert!(no_rule_failures_mt(false).into_vec().is_empty());
}

#[test]
fn two_alternatives_side_by_side() {
    assert_eq!(combine_pair(Ok(1), Ok(2)).ok(), Some(1));
    assert_eq!(combine_pair(Err(fail("a")), Ok(2)).ok(), Some(2));
    assert_eq!(combine_pair(Ok(1), Err(fail("b"))).ok(), Some(1));
    match combine_pair::<u32>(Err(fail("a")), Err(fail("b"))) {
        Err(f) => {
            let v = f.into_vec();
            assert_eq!(v.len(), 2);
            assert_eq!(fail_text(&v[0]), "a");
            assert_eq!(fail_text(&v[1]), "b");
        }
        Ok(_) => panic!("both failed"),
    }
}

#[test]
fn outcomes_of_a_parallel_split() {
    assert_eq!(collect_outcomes(vec![Err(fail("a")), Ok(1), Err(fail("b")), Ok(2), Err(fail("c"))]).ok(), Some(2));
    match collect_outcomes::<u32>(vec![Err(fail("a")), Err(fail("b")), Err(fail("c"))]) {
        Err(f) => {
            let v = f.into_vec();
            assert_eq!(v.len(), 3);
            assert_eq!(fail_text(&v[2]), "c");
        }
        Ok(_) => panic!("all failed"),
    }
    assert!(collect_outcomes::<u32>(vec![]).is_err());
}

#[test]
fn how_a_parallel_split_ends() {
    let none = parallel_split_result::<u32>(true, 0, vec![]).err().unwrap().into_vec();
    assert_eq!(fail_text(&none[0]), "No rule applicable (5)");
    let one = parallel_split_result::<u32>(true, 1, vec![Err(fail("a"))]).err().unwrap().into_vec();
    assert_eq!(one.len(), 1);
    assert_eq!(parallel_split_result(true, 1, vec![Ok(3)]).ok(), Some(3));
    assert_eq!(parallel_split_result(true, 2, vec![Ok(1), Ok(2)]).ok(), Some(1));
    assert_eq!(parallel_split_result(true, 3, vec![Ok(1), Err(fail("x")), Ok(2)]).ok(), Some(2));
    let all = parallel_split_result::<u32>(true, 3, vec![Err(fail("a")), Err(fail("b"))]).err().unwrap().into_vec();
    assert_eq!(all.len(), 2);
}
