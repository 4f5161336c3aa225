use flams::{InvalidURICharacter, Name, NameStep};

fn steps(n: &Name) -> Vec<String> {
    n.0.iter().map(|s| s.0.clone()).collect()
}

fn name(s: &str) -> Name {
    match Name::parse(s) {
        Ok(n) => n,
        Err(InvalidURICharacter) => panic!("reserved character in {s}"),
    }
}

#[test]
fn parse_splits_on_slashes() {
    assert_eq!(steps(&name("a/b/c")), vec!["a", "b", "c"]);
    assert_eq!(steps(&name("single")), vec!["single"]);
    assert_eq!(steps(&name("")), vec![""]);
    assert_eq!(steps(&name("a//b/")), vec!["a", "", "b", ""]);
}

#[test]
fn parse_refuses_reserved_characters() {
    assert!(Name::parse("a{b").is_err());
    assert!(Name::parse("a}b").is_err());
    assert!(Name::parse("a\\b").is_err());
    assert!(Name::parse("a/b?c").is_ok());
    assert!("x/y".parse::<Name>().is_ok());
    assert!("x/{".parse::<Name>().is_err());
}

#[test]
fn joining_names() {
    let n = name("a/b");
    let joined = n.join_str("c/d").ok().unwrap();
    assert_eq!(steps(&joined), vec!["a", "b", "c", "d"]);
    assert!(name("a").join_str("b}").is_err());
    let joined = name("a").join_string("b".to_string()).ok().unwrap();
    assert_eq!(steps(&joined), vec!["a", "b"]);
    let pushed = name("a").push_step(NameStep("b/c".to_string()));
    assert_eq!(steps(&pushed), vec!["a", "b/c"]);
    let both = name("a/b").join(name("c"));
    assert_eq!(steps(&both), vec!["a", "b", "c"]);
    assert_eq!(steps(&Name::from_step(NameStep("x".to_string()))), vec!["x"]);
}

#[test]
fn name_operators() {
    let a = (name("a") / "b/c").ok().unwrap();
    assert_eq!(steps(&a), vec!["a", "b", "c"]);
    assert!((name("a") / "{").is_err());
    let b = (name("a") / "d".to_string()).ok().unwrap();
    assert_eq!(steps(&b), vec!["a", "d"]);
    let c = name("a") / NameStep("e".to_string());
    assert_eq!(steps(&c), vec!["a", "e"]);
    let d = name("a") / name("f/g");
    assert_eq!(steps(&d), vec!["a", "f", "g"]);
}

#[test]
fn simple_names_and_copies() {
    assert!(name("a").is_simple());
    assert!(!name("a/b").is_simple());
    let n = name("a/b");
    assert_eq!(steps(&n.copy()), steps(&n));
}

#[test]
fn parsing_a_slash_b_is_joining() {
    for (a, b) in [("a", "b"), ("a/b", "c/d"), ("", "x"), ("x", "")] {
        let whole = name(&format!("{a}/{b}"));
        let joined = name(a).join_str(b).ok().unwrap();
        assert_eq!(steps(&whole), steps(&joined));
    }
    assert!(Name::parse("a/{").is_err());
    assert!(Name::parse("}/b").is_err());
}
