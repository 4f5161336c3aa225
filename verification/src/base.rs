use crate::uris::BaseURI;
use vstd::prelude::*;
use vstd::string::*;
use crate::text::{find_char, first_index_of, split_on, split_text, texts};

verus! {

#[verifier::external_type_specification]
#[verifier::external_body]
pub struct ExUrlParseError(url::ParseError);

/// What parsing a text as a URL tells about its use as a base: whether it
/// cannot be a base (as `mailto:` or `data:` URLs cannot), and whether it
/// has a query and a fragment.
pub struct UrlFacts {
    pub cannot_be_a_base: bool,
    pub has_query: bool,
    pub has_fragment: bool,
}

/// What parsing the text `s` as an absolute URL gives: nothing when it is
/// no URL, else the facts about it.
pub uninterp spec fn url_facts_of(s: Seq<char>) -> Option<UrlFacts>;

/// `url::Url::parse` on `s`, read through `Url::cannot_be_a_base`,
/// `Url::query` and `Url::fragment`. What it gives depends on `s` alone and
/// is named `url_facts_of`; which parse error comes back on a failure is not
/// stated.
#[verifier::external_body]
fn parse_url_facts(s: &str) -> (r: Result<UrlFacts, url::ParseError>)
    ensures
        r is Ok <==> url_facts_of(s@) is Some,
        r matches Ok(f) ==> url_facts_of(s@) == Some(f),
{
    match url::Url::parse(s) {
        Ok(u) => Ok(
            UrlFacts {
                cannot_be_a_base: u.cannot_be_a_base(),
                has_query: u.query().is_some(),
                has_fragment: u.fragment().is_some(),
            },
        ),
        Err(e) => Err(e),
    }
}

/// Why a text is no base URI.
pub enum BaseUriError {
    /// It is no URL.
    Url(url::ParseError),
    /// It is a URL, but cannot be a base or has a query or fragment.
    RelativeUrlWithoutBase,
}

/// What a parse of a text as a URL told: the facts, or nothing when the
/// parse failed.
pub open spec fn parsed_facts(parsed: Result<UrlFacts, url::ParseError>) -> Option<UrlFacts> {
    match parsed {
        Ok(f) => Some(f),
        Err(_) => None,
    }
}

/// `s`, of which a parse as a URL told `facts`, is refused as a base URI
/// with the error `r`, or accepted as `r`; `partially` leaves query and
/// fragment unchecked.
pub open spec fn base_from(
    s: Seq<char>,
    partially: bool,
    facts: Option<UrlFacts>,
    r: Result<BaseURI, BaseUriError>,
) -> bool {
    match facts {
        None => r matches Err(BaseUriError::Url(_)),
        Some(f) => if f.cannot_be_a_base || (!partially && (f.has_query || f.has_fragment)) {
            r matches Err(BaseUriError::RelativeUrlWithoutBase)
        } else {
            r matches Ok(b) && b.0@ == s
        },
    }
}

/// `s` is refused as a base URI with the error `r`, or accepted as `r`;
/// `partially` leaves query and fragment unchecked.
pub open spec fn base_checked(s: Seq<char>, partially: bool, r: Result<BaseURI, BaseUriError>) -> bool {
    base_from(s, partially, url_facts_of(s), r)
}

impl BaseURI {
    /// Decides on `s` as a base URI from what parsing it as a URL gave: a
    /// failed parse is refused with its error; a URL that cannot be a base,
    /// or (unless `partially`) has a query or a fragment, is refused as
    /// relative; any other is accepted as it is.
    pub fn from_parsed(s: &str, parsed: Result<UrlFacts, url::ParseError>, partially: bool) -> (r: Result<
        BaseURI,
        BaseUriError,
    >)
        ensures
            base_from(s@, partially, parsed_facts(parsed), r),
            parsed matches Err(e) ==> r matches Err(BaseUriError::Url(e2)) && e2 == e,
    {
        let facts = match parsed {
            Ok(f) => f,
            Err(e) => return Err(BaseUriError::Url(e)),
        };
        if facts.cannot_be_a_base {
            return Err(BaseUriError::RelativeUrlWithoutBase);
        }
        if !partially && (facts.has_query || facts.has_fragment) {
            return Err(BaseUriError::RelativeUrlWithoutBase);
        }
        Ok(BaseURI::new_unchecked(s))
    }

    /// The base URI `s`, if `s` is a URL that can be a base and has neither
    /// a query nor a fragment.
    pub fn new_checked(s: &str) -> (r: Result<BaseURI, BaseUriError>)
        ensures
            base_checked(s@, false, r),
    {
        BaseURI::from_parsed(s, parse_url_facts(s), false)
    }

    /// The base URI `s`, if `s` is a URL that can be a base.
    fn new_checked_partially(s: &str) -> (r: Result<BaseURI, BaseUriError>)
        ensures
            base_checked(s@, true, r),
    {
        BaseURI::from_parsed(s, parse_url_facts(s), true)
    }
}


/// A URI split at its first `?`: a bare base, or a base with the pieces of
/// its query between the `&`s.
pub enum PreParsed {
    Base(BaseURI),
    WithQuery(BaseURI, Vec<String>),
}

impl BaseURI {
    /// Splits `s` at its first `?` into a base, checked to be a URL that
    /// can be a base, and the pieces of the query between the `&`s; no `?`,
    /// or nothing after it, leaves a bare base.
    pub fn pre_parse(s: &str) -> (r: Result<PreParsed, BaseUriError>)
        ensures
            match first_index_of(s@, '?') {
                None => match r {
                    Ok(PreParsed::Base(b)) => base_checked(s@, true, Ok(b)),
                    Ok(PreParsed::WithQuery(..)) => false,
                    Err(e) => base_checked(s@, true, Err(e)),
                },
                Some(i) => match r {
                    Ok(PreParsed::Base(b)) => base_checked(s@.take(i), true, Ok(b)) && i + 1 == s@.len(),
                    Ok(PreParsed::WithQuery(b, q)) => base_checked(s@.take(i), true, Ok(b)) && i + 1
                        < s@.len() && texts(q@) == split_on(s@.skip(i + 1), '&'),
                    Err(e) => base_checked(s@.take(i), true, Err(e)),
                },
            },
    {
        match find_char(s, '?') {
            None => {
                proof {
                    assert(!(exists|i: int| 0 <= i < s@.len() && s@[i] == '?'));
                }
                match BaseURI::new_checked_partially(s) {
                    Ok(b) => Ok(PreParsed::Base(b)),
                    Err(e) => Err(e),
                }
            },
            Some(i) => {
                proof {
                    let j = first_index_of(s@, '?')->0;
                    assert(s@[i as int] == '?');
                    assert(j == i) by {
                        if j < i {
                            assert(s@[j] == '?');
                        } else if i < j {
                            assert(s@[i as int] != '?');
                        }
                    }
                }
                let len = s.unicode_len();
                let base = s.substring_char(0, i);
                let rest = s.substring_char(i + 1, len);
                assert(base@ =~= s@.take(i as int));
                assert(rest@ =~= s@.skip(i + 1));
                let b = match BaseURI::new_checked_partially(base) {
                    Ok(b) => b,
                    Err(e) => return Err(e),
                };
                if rest.unicode_len() == 0 {
                    Ok(PreParsed::Base(b))
                } else {
                    Ok(PreParsed::WithQuery(b, split_text(rest, '&')))
                }
            },
        }
    }
}

} // verus!
