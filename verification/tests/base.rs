use flams::{BaseURI, BaseUriError, PreParsed, UrlFacts};

#[test]
fn a_plain_url_is_a_base() {
    let b = BaseURI::new_checked("https://mathhub.info").ok().unwrap();
    assert_eq!(b.as_str(), "https://mathhub.info");
}

#[test]
fn queries_fragments_and_non_bases_are_refused() {
    assert!(matches!(
        BaseURI::new_checked("https://mathhub.info?a=b"),
        Err(BaseUriError::RelativeUrlWithoutBase)
    ));
    assert!(matches!(
        BaseURI::new_checked("https://mathhub.info#top"),
        Err(BaseUriError::RelativeUrlWithoutBase)
    ));
    assert!(matches!(
        BaseURI::new_checked("mailto:someone@example.org"),
        Err(BaseUriError::RelativeUrlWithoutBase)
    ));
}

#[test]
fn a_text_that_is_no_url_is_refused_with_the_parse_error() {
    assert!(matches!(
        BaseURI::new_checked("not a url"),
        Err(BaseUriError::Url(url::ParseError::RelativeUrlWithoutBase))
    ));
    assert!(matches!(
        BaseURI::new_checked("http://"),
        Err(BaseUriError::Url(url::ParseError::EmptyHost))
    ));
}

#[test]
fn deciding_from_parse_facts() {
    let plain = UrlFacts { cannot_be_a_base: false, has_query: false, has_fragment: false };
    let query = UrlFacts { cannot_be_a_base: false, has_query: true, has_fragment: false };
    let opaque = UrlFacts { cannot_be_a_base: true, has_query: false, has_fragment: false };
    let b = BaseURI::from_parsed("s", Ok(plain), false).ok().unwrap();
    assert_eq!(b.as_str(), "s");
    assert!(matches!(
        BaseURI::from_parsed("s", Ok(query), false),
        Err(BaseUriError::RelativeUrlWithoutBase)
    ));
    let q = UrlFacts { cannot_be_a_base: false, has_query: true, has_fragment: false };
    assert_eq!(BaseURI::from_parsed("s", Ok(q), true).ok().unwrap().as_str(), "s");
    assert!(matches!(
        BaseURI::from_parsed("s", Ok(opaque), true),
        Err(BaseUriError::RelativeUrlWithoutBase)
    ));
    assert!(matches!(
        BaseURI::from_parsed("s", Err(url::ParseError::InvalidPort), false),
        Err(BaseUriError::Url(url::ParseError::InvalidPort))
    ));
}

#[test]
fn pre_parse_splits_off_the_query() {
    match BaseURI::pre_parse("https://mathhub.info?a=1&b=2") {
        Ok(PreParsed::WithQuery(b, q)) => {
            assert_eq!(b.as_str(), "https://mathhub.info");
            assert_eq!(q, vec!["a=1".to_string(), "b=2".to_string()]);
        }
        _ => panic!("expected a base with a query"),
    }
    match BaseURI::pre_parse("https://mathhub.info?") {
        Ok(PreParsed::Base(b)) => assert_eq!(b.as_str(), "https://mathhub.info"),
        _ => panic!("expected a bare base"),
    }
    match BaseURI::pre_parse("https://mathhub.info") {
        Ok(PreParsed::Base(b)) => assert_eq!(b.as_str(), "https://mathhub.info"),
        _ => panic!("expected a bare base"),
    }
    match BaseURI::pre_parse("https://mathhub.info#frag") {
        Ok(PreParsed::Base(b)) => assert_eq!(b.as_str(), "https://mathhub.info#frag"),
        _ => panic!("a fragment is left to the caller"),
    }
    assert!(matches!(BaseURI::pre_parse("mailto:x?y"), Err(BaseUriError::RelativeUrlWithoutBase)));
    assert!(matches!(BaseURI::pre_parse("nothing?a"), Err(BaseUriError::Url(_))));
}
