use flams::{CheckLog, ColorDisplay, ComponentVar, Displayable, Indent, MessageLevel, Term, Variable};

fn term(s: &str) -> Term {
    Term { short: s.to_string() }
}

fn comment(s: &str) -> CheckLog {
    CheckLog::Comment(vec![Displayable::String(s.to_string())])
}

#[test]
fn indent_increase_and_decrease() {
    let mut i = Indent(0);
    i.decrease();
    assert_eq!(i.0, 0);
    i.increase();
    i.increase();
    assert_eq!(i.0, 2);
    i.decrease();
    assert_eq!(i.0, 1);
}

#[test]
fn success_of_judgements() {
    let yes = CheckLog::Inhabitable { term: term("A"), steps: vec![], context: vec![], result: Some(true) };
    let no = CheckLog::Inhabitable { term: term("A"), steps: vec![], context: vec![], result: Some(false) };
    let unknown = CheckLog::Universe { term: term("A"), steps: vec![], context: vec![], result: None };
    assert!(yes.success());
    assert!(!no.success());
    assert!(!unknown.success());
    assert!(!comment("x").success());
}

#[test]
fn display_plain() {
    let log = CheckLog::Inference {
        term: term("f x"),
        steps: vec![comment("hello")],
        context: vec![ComponentVar { var: Variable { name: "x".to_string() }, tp: Some(term("A")), df: None }],
        result: Some(term("B")),
    };
    assert_eq!(
        log.display::<()>(),
        "\n [SUCCESS] Inferring type of {... x : A } f x: B\n  ├─ hello"
    );
}

#[test]
fn display_colored() {
    let log = CheckLog::Strategy { name: "s".to_string(), steps: vec![], success: true };
    assert_eq!(log.display::<ColorDisplay>(), "\n\u{1b}[34m\u{1b}[39m Strategy: \u{1b}[3ms\u{1b}[0m");
    assert_eq!(log.colored(), log.display::<ColorDisplay>());
    let _ = MessageLevel::Failure;
}

#[test]
fn numbers_are_shown_in_decimal() {
    let log = CheckLog::Comment(vec![Displayable::Num(-42), Displayable::String(" and ".to_string()), Displayable::Num(170141183460469231731687303715884105727)]);
    assert_eq!(log.display::<()>(), "\n -42 and 170141183460469231731687303715884105727");
}

fn without_escapes(s: &str) -> String {
    let cs: Vec<char> = s.chars().collect();
    let mut out = String::new();
    let mut i = 0;
    while i < cs.len() {
        if cs[i] == '\u{1b}' && i + 1 < cs.len() && cs[i + 1] == '[' {
            let mut j = i + 2;
            while j < cs.len() && (cs[j].is_ascii_digit() || cs[j] == ';') {
                j += 1;
            }
            if j < cs.len() && cs[j] == 'm' {
                i = j + 1;
                continue;
            }
        }
        out.push(cs[i]);
        i += 1;
    }
    out
}

#[test]
fn colored_text_is_plain_text_with_codes() {
    let ctx = vec![ComponentVar { var: Variable { name: "x".to_string() }, tp: Some(term("A")), df: None }];
    let log = CheckLog::Rule {
        header: vec![Displayable::String("rule ".to_string()), Displayable::Num(-3)],
        steps: vec![
            CheckLog::HasType { tm: term("t"), tp: term("T"), steps: vec![comment("note")], context: ctx, result: Some(false) },
            CheckLog::Simplify { term: term("a"), steps: vec![], context: vec![], result: Some(term("b")) },
            CheckLog::Fail(vec![Displayable::String("bad".to_string())]),
            CheckLog::Strategy { name: "s".to_string(), steps: vec![], success: true },
        ],
    };
    let colored = log.colored();
    assert_ne!(colored, log.display::<()>());
    assert_eq!(without_escapes(&colored), log.display::<()>());
}

#[test]
fn the_least_number_and_zero_are_shown_in_decimal() {
    let log = CheckLog::Comment(vec![Displayable::Num(i128::MIN), Displayable::String(" ".to_string()), Displayable::Num(0)]);
    assert_eq!(log.display::<()>(), "\n -170141183460469231731687303715884105728 0");
}

#[test]
fn lone_escapes_stay_in_both_renderings() {
    let log = CheckLog::Simplify { term: term("a\u{1b}[3"), steps: vec![comment("\u{1b}")], context: vec![], result: Some(term("\u{1b}x")) };
    let colored = log.colored();
    assert!(log.display::<()>().contains("a\u{1b}[3"));
    assert_eq!(without_escapes(&colored), log.display::<()>());
}
