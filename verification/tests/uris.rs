use flams::{
    ArchiveId, ArchiveURI, BaseURI, DocumentURI, Language, ModuleURI, Name, NameStep, NarrativeURI,
    PathURI,
};

fn steps(n: &Name) -> Vec<String> {
    n.0.iter().map(|s| s.0.clone()).collect()
}

fn name(s: &str) -> Name {
    Name::parse(s).ok().unwrap()
}

fn archive() -> ArchiveURI {
    BaseURI::new_unchecked("https://mathhub.info").archive_named("some/archive")
}

#[test]
fn archive_at_a_base() {
    let a = archive();
    assert_eq!(a.base.as_str(), "https://mathhub.info");
    assert_eq!(a.archive.0, "some/archive");
    let b = BaseURI::new_unchecked("http://x.org") & ArchiveId::new("arch");
    assert_eq!(b.archive.0, "arch");
    let c = BaseURI::new_unchecked("http://x.org") & "arch2";
    assert_eq!(c.archive.0, "arch2");
}

#[test]
fn modules_and_documents_at_the_top_of_an_archive() {
    let m = archive().module_named("mod/sub").ok().unwrap();
    assert!(m.path.path.is_none());
    assert_eq!(steps(&m.name), vec!["mod", "sub"]);
    assert!(archive().module_named("m{").is_err());
    let d = archive().document_named("doc").ok().unwrap();
    assert!(d.language == Language::English);
    assert_eq!(steps(&d.name), vec!["doc"]);
    let d = archive().document_in_named(("doc", Language::German)).ok().unwrap();
    assert!(d.language == Language::German);
    assert!(Language::default() == Language::English);
}

#[test]
fn paths_in_an_archive() {
    assert!(archive().path_named("").ok().unwrap().path.is_none());
    let p = archive().path_named("a/b").ok().unwrap();
    assert_eq!(steps(p.path.as_ref().unwrap()), vec!["a", "b"]);
    assert!(archive().path_named("a}").is_err());
    let q = p.join_str("c").ok().unwrap();
    assert_eq!(steps(q.path.as_ref().unwrap()), vec!["a", "b", "c"]);
    let same = q.join_str("").ok().unwrap();
    assert_eq!(steps(same.path.as_ref().unwrap()), vec!["a", "b", "c"]);
    let top: PathURI = PathURI::from(archive());
    let r = top.join_name(name("x"));
    assert_eq!(steps(r.path.as_ref().unwrap()), vec!["x"]);
    let r2 = r.join_name_ref(&name("y/z"));
    assert_eq!(steps(r2.path.as_ref().unwrap()), vec!["x", "y", "z"]);
}

#[test]
fn modules_and_symbols() {
    let p = archive().path_named("a").ok().unwrap();
    let m = p.module_named("m").ok().unwrap();
    let m2 = m.join_str("n/o").ok().unwrap();
    assert_eq!(steps(&m2.name), vec!["m", "n", "o"]);
    let top = m2.top();
    assert_eq!(steps(&top.name), vec!["m"]);
    let m3 = top.push_step(NameStep("p".to_string()));
    assert_eq!(steps(&m3.name), vec!["m", "p"]);
    let m4 = m3.join_name(name("q"));
    assert_eq!(steps(&m4.name), vec!["m", "p", "q"]);
    let m5 = m4.join_string("r".to_string()).ok().unwrap();
    assert_eq!(steps(&m5.name), vec!["m", "p", "q", "r"]);
    let s = m5.symbol_named("sym").ok().unwrap();
    assert_eq!(steps(&s.name), vec!["sym"]);
    assert_eq!(steps(&s.module.name), vec!["m", "p", "q", "r"]);
    let m6 = archive().module_named("x").ok().unwrap();
    assert!(m6.symbol_named("{").is_err());
}

#[test]
fn document_elements() {
    let d = archive().document_named("doc").ok().unwrap();
    let e = d.element_named("sec").ok().unwrap();
    let e2 = e.join_str("para/1").ok().unwrap();
    assert_eq!(steps(&e2.name), vec!["sec", "para", "1"]);
    let e3 = e2.push_step(NameStep("x".to_string())).join_name(name("y"));
    assert_eq!(steps(&e3.name), vec!["sec", "para", "1", "x", "y"]);
    let e4 = e3.join_string("z".to_string()).ok().unwrap();
    assert_eq!(steps(&e4.name), vec!["sec", "para", "1", "x", "y", "z"]);
    let n = NarrativeURI::Element(e4);
    let e5 = n.element(name("w"));
    assert_eq!(steps(&e5.name), vec!["sec", "para", "1", "x", "y", "z", "w"]);
    let d2: DocumentURI = archive().document_named("doc2").ok().unwrap();
    let e6 = NarrativeURI::Document(d2).element_named("a/b").ok().unwrap();
    assert_eq!(steps(&e6.name), vec!["a", "b"]);
    assert_eq!(steps(&e6.document.name), vec!["doc2"]);
}

#[test]
fn uri_operators() {
    let m: ModuleURI = archive() | name("m");
    assert_eq!(steps(&m.name), vec!["m"]);
    let m2 = (archive() | "m/n").ok().unwrap();
    assert_eq!(steps(&m2.name), vec!["m", "n"]);
    let s = m2 | name("s");
    assert_eq!(steps(&s.name), vec!["s"]);
    let d = archive() & name("d");
    assert!(d.language == Language::English);
    let p = archive() % name("p/q");
    assert_eq!(steps(p.path.as_ref().unwrap()), vec!["p", "q"]);
    let p2 = (archive() % "p").ok().unwrap();
    assert_eq!(steps(p2.path.as_ref().unwrap()), vec!["p"]);
    assert!((archive() | "{").is_err());
}
