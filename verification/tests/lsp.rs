use flams::{LSPText, Position};

fn offset(text: &str, line: u32, character: u32) -> usize {
    LSPText { text: text.to_string(), html_up_to_date: true }.get_position(Position { line, character })
}

#[test]
fn positions_count_lines_of_every_ending() {
    let t = "ab\ncd\r\nef\rgh";
    assert_eq!(offset(t, 0, 0), 0);
    assert_eq!(offset(t, 0, 1), 1);
    assert_eq!(offset(t, 1, 0), 3);
    assert_eq!(offset(t, 1, 1), 4);
    assert_eq!(offset(t, 2, 0), 7);
    assert_eq!(offset(t, 3, 0), 10);
    assert_eq!(offset(t, 3, 2), 12);
}

#[test]
fn positions_past_the_end() {
    let t = "ab\ncd\r\nef\rgh";
    assert_eq!(offset(t, 3, 5), 12);
    assert_eq!(offset(t, 4, 0), 12);
    assert_eq!(offset(t, 9, 3), 12);
    assert_eq!(offset(t, 0, 10), 10);
    assert_eq!(offset("", 0, 3), 0);
}

#[test]
fn positions_are_byte_offsets() {
    assert_eq!(offset("é\nx", 0, 1), 2);
    assert_eq!(offset("é\nx", 1, 0), 3);
    assert_eq!(offset("a€𝄞b", 0, 3), 8);
}

use flams::{disamb, BaseURI, Name, SymbolURI};

fn symbol(archive: &str, path: &str, module: &str, name: &str) -> SymbolURI {
    let a = BaseURI::new_unchecked("https://mathhub.info").archive_named(archive);
    let p = a.path_named(path).ok().unwrap();
    p.module_named(module).ok().unwrap().symbol_named(name).ok().unwrap()
}

fn strings(v: &[&str]) -> Vec<String> {
    v.iter().map(|s| s.to_string()).collect()
}

#[test]
fn the_shortest_unique_name_is_chosen() {
    let u = symbol("smglom/sets", "mod/sub", "set", "member");
    let all = strings(&["x/a?set?member", "y/b?other?member", "smglom/sets/mod/sub?set?member"]);
    assert_eq!(disamb(&u, &all), "sub?set?member");
    assert_eq!(disamb(&u, &strings(&["a?b?member"])), "?member");
    assert_eq!(disamb(&u, &strings(&["a?set?member", "b?x?member"])), "?set?member");
}

#[test]
fn without_a_unique_name_the_longest_is_chosen() {
    let u = symbol("smglom/sets", "mod/sub", "set", "member");
    assert_eq!(disamb(&u, &[]), "smglom/sets/mod/sub?set?member");
    let v = symbol("smglom/sets", "", "set", "member");
    assert_eq!(disamb(&v, &strings(&["p/?set?member", "q/?set?member"])), "smglom/sets/?set?member");
    assert_eq!(disamb(&v, &strings(&["sets/?set?member", "?set?member"])), "sets/?set?member");
}

#[test]
fn names_with_several_steps() {
    let n = Name::parse("a/b").ok().unwrap();
    let u = symbol("arch", "", "m", "x").module | n;
    assert_eq!(disamb(&u, &strings(&["arch?m?a/b"])), "?a/b");
}
