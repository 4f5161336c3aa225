use flams::{aux_request, image_content_type, Params};

#[test]
fn query_parameters_are_found_and_decoded() {
    let p = Params::new(Some("a=1&b=x%20y&c&rp=some%2Fpath")).unwrap();
    assert_eq!(p.get_str("a"), Some("1".to_string()));
    assert_eq!(p.get_str("b"), Some("x y".to_string()));
    assert_eq!(p.get("rp"), Some("some/path".to_string()));
    assert_eq!(p.get_str("c"), None);
    assert_eq!(p.get_str("d"), None);
}

#[test]
fn a_parameter_name_must_be_followed_by_an_equals_sign() {
    let p = Params::new(Some("ab=1&a=2")).unwrap();
    assert_eq!(p.get("a"), Some("2".to_string()));
    assert_eq!(p.get("ab"), Some("1".to_string()));
}

#[test]
fn the_value_ends_at_the_next_equals_sign() {
    let p = Params::new(Some("uri=x=y&e=")).unwrap();
    assert_eq!(p.get("uri"), Some("x".to_string()));
    assert_eq!(p.get("e"), Some(String::new()));
}

#[test]
fn a_value_that_does_not_decode_is_missing() {
    let p = Params::new(Some("a=%FF&b=%41")).unwrap();
    assert_eq!(p.get("a"), None);
    assert_eq!(p.get("b"), Some("A".to_string()));
    assert!(Params::new(None).is_none());
}

#[test]
fn auxiliary_file_requests() {
    assert_eq!(
        aux_request("a=some/archive&f=img/x.png"),
        Some(("some/archive".to_string(), "img/x.png".to_string()))
    );
    assert_eq!(aux_request("a=arch&f=f.png?v=2"), Some(("arch".to_string(), "f.png".to_string())));
    assert_eq!(aux_request("a=x&f=a&f=b"), Some(("x".to_string(), "a&f=b".to_string())));
    assert_eq!(aux_request("b=arch&f=x"), None);
    assert_eq!(aux_request("a=arch"), None);
    assert_eq!(aux_request(""), None);
}

#[test]
fn image_content_types() {
    assert_eq!(image_content_type("svg"), "image/svg+xml");
    assert_eq!(image_content_type("png"), "image/webp");
    assert_eq!(image_content_type("SVG"), "image/webp");
}
