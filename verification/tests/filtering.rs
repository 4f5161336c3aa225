use flams::{CheckLog, Displayable, MessageLevel, PreCheckLog, Term};

fn strategy(name: &str, success: bool, steps: Vec<CheckLog>) -> CheckLog {
    CheckLog::Strategy { name: name.to_string(), steps, success }
}

fn names(steps: &[CheckLog]) -> Vec<String> {
    steps
        .iter()
        .map(|s| match s {
            CheckLog::Strategy { name, .. } => name.clone(),
            CheckLog::Fail(_) => "fail".to_string(),
            _ => "other".to_string(),
        })
        .collect()
}

fn steps_of(l: &CheckLog) -> &Vec<CheckLog> {
    l.steps_ref().unwrap()
}

fn sample() -> CheckLog {
    strategy(
        "top",
        false,
        vec![
            strategy("good", true, vec![strategy("inner-bad", false, vec![])]),
            strategy("bad", false, vec![strategy("x", true, vec![]), strategy("y", false, vec![])]),
        ],
    )
}

#[test]
fn filtering_keeps_only_failed_steps() {
    let mut l = sample();
    l.filter_failures(false);
    assert_eq!(names(steps_of(&l)), vec!["bad"]);
    assert_eq!(names(steps_of(&steps_of(&l)[0])), vec!["y"]);
    assert!(!l.success());
}

#[test]
fn filtering_with_siblings_keeps_every_step() {
    let mut l = sample();
    l.filter_failures(true);
    assert_eq!(names(steps_of(&l)), vec!["good", "bad"]);
    assert_eq!(names(steps_of(&steps_of(&l)[0])), vec!["inner-bad"]);
    assert_eq!(names(steps_of(&steps_of(&l)[1])), vec!["x", "y"]);
}

#[test]
fn filtering_twice_changes_nothing_more() {
    let mut once = sample();
    once.filter_failures(false);
    let mut twice = sample();
    twice.filter_failures(false);
    twice.filter_failures(false);
    assert_eq!(names(steps_of(&once)), names(steps_of(&twice)));
    assert_eq!(names(steps_of(&steps_of(&once)[0])), names(steps_of(&steps_of(&twice)[0])));
}

#[test]
fn filtering_keeps_whether_a_rule_succeeded() {
    let mut r = CheckLog::Rule {
        header: vec![Displayable::String("r".to_string())],
        steps: vec![strategy("a", true, vec![]), strategy("b", false, vec![])],
    };
    assert!(!r.success());
    r.filter_failures(false);
    assert!(!r.success());
    assert_eq!(names(steps_of(&r)), vec!["b"]);
    let mut ok = CheckLog::Rule { header: vec![], steps: vec![strategy("a", true, vec![])] };
    assert!(ok.success());
    ok.filter_failures(false);
    assert!(ok.success());
    assert!(steps_of(&ok).is_empty());
}

#[test]
fn a_bare_message_is_left_alone() {
    let mut c = CheckLog::Comment(vec![Displayable::Num(3)]);
    c.filter_failures(false);
    assert!(matches!(&c, CheckLog::Comment(v) if v.len() == 1));
    assert!(c.steps_ref().is_none());
}

#[test]
fn adding_a_failure() {
    let mut l = strategy("s", true, vec![]);
    l.add_failure("went wrong");
    assert_eq!(names(steps_of(&l)), vec!["fail"]);
    match &steps_of(&l)[0] {
        CheckLog::Fail(parts) => assert!(matches!(&parts[0], Displayable::String(s) if s == "went wrong")),
        _ => panic!("expected a failure"),
    }
    let mut c = CheckLog::Header(vec![]);
    c.add_failure("ignored");
    assert!(matches!(&c, CheckLog::Header(v) if v.is_empty()));
    assert!(matches!(CheckLog::failure("f"), CheckLog::Fail(v) if v.len() == 1));
}

#[test]
fn steps_can_be_changed_in_place() {
    let mut l = strategy("s", true, vec![]);
    l.steps_mut().unwrap().push(strategy("t", false, vec![]));
    assert_eq!(names(steps_of(&l)), vec!["t"]);
    assert!(l.has_steps_exec());
    let mut c = CheckLog::Emph(vec![]);
    assert!(c.steps_mut().is_none());
    assert!(!c.has_steps_exec());
}

fn t(s: &str) -> Term {
    Term { short: s.to_string() }
}

#[test]
fn finishing_a_running_log() {
    let mut pre = PreCheckLog::Inference { term: t("f"), steps: vec![], context: vec![], result: Some(t("A")) };
    pre.push(PreCheckLog::Msg(vec![Displayable::String("hi".to_string())], MessageLevel::Comment));
    pre.push(PreCheckLog::Rule { rule: vec![Displayable::Term(t("r"))], steps: vec![] });
    let mut msg = PreCheckLog::Msg(vec![], MessageLevel::Failure);
    msg.push(PreCheckLog::Msg(vec![], MessageLevel::Header));
    assert!(msg.steps_mut().is_none());
    let upper = |x: Term| Term { short: x.short.to_uppercase() };
    let log = CheckLog::from_pre(pre, &upper);
    match &log {
        CheckLog::Inference { term, result: Some(r), steps, .. } => {
            assert_eq!(term.short, "F");
            assert_eq!(r.short, "A");
            assert_eq!(steps.len(), 2);
            assert!(matches!(&steps[0], CheckLog::Comment(p) if p.len() == 1));
            match &steps[1] {
                CheckLog::Rule { header, .. } => {
                    assert!(matches!(&header[0], Displayable::Term(x) if x.short == "R"))
                }
                _ => panic!("expected the rule"),
            }
        }
        _ => panic!("expected an inference"),
    }
    assert!(matches!(CheckLog::from_pre(msg, &upper), CheckLog::Fail(v) if v.is_empty()));
}

#[test]
fn keeping_siblings_first_changes_nothing_for_filtering_without() {
    let mut a = sample();
    a.filter_failures(true);
    a.filter_failures(false);
    let mut b = sample();
    b.filter_failures(false);
    assert_eq!(a.display::<()>(), b.display::<()>());
}

#[test]
fn filtering_only_deletes_steps() {
    let before = sample().display::<()>();
    let mut l = sample();
    l.filter_failures(false);
    let after = l.display::<()>();
    for line in after.lines() {
        assert!(before.contains(line.trim()));
    }
}
