use crate::text::{lemma_split_on_two, split_on, split_text, texts};
use vstd::prelude::*;
use vstd::string::*;

verus! {

/// What `urlencoding::decode` gives for the text `s`: `s` with each `%`
/// and two hex digits replaced by the byte they stand for, or nothing when
/// the bytes so decoded are no UTF-8.
pub uninterp spec fn url_decoded(s: Seq<char>) -> Option<Seq<char>>;

/// `s` holds a `%`.
pub open spec fn has_percent(s: Seq<char>) -> bool {
    exists|i: int| 0 <= i < s.len() && s[i] == '%'
}

/// `urlencoding::decode`, its result made an owned text. What it gives
/// depends on `s` alone and is named `url_decoded`; of it, the crate's
/// source shows that a text without `%` comes back as it is.
#[verifier::external_body]
fn url_decode(s: &str) -> (r: Option<String>)
    ensures
        r matches Some(d) ==> url_decoded(s@) == Some(d@),
        r is None <==> url_decoded(s@) is None,
        r is None ==> has_percent(s@),
        r matches Some(d) ==> (has_percent(s@) || d@ == s@),
{
    match urlencoding::decode(s) {
        Ok(c) => Some(c.into_owned()),
        Err(_) => None,
    }
}

/// `piece` is a pair named `name`: it starts with `name`, directly
/// followed by `=`.
pub open spec fn names_pair(piece: Seq<char>, name: Seq<char>) -> bool {
    &&& piece.len() > name.len()
    &&& piece.take(name.len() as int) == name
    &&& piece[name.len() as int] == '='
}

/// The index of the first of `pieces` that is a pair named `name`.
pub open spec fn first_pair(pieces: Seq<Seq<char>>, name: Seq<char>) -> Option<int> {
    if exists|i: int| 0 <= i < pieces.len() && names_pair(#[trigger] pieces[i], name) {
        Some(
            choose|i: int|
                0 <= i < pieces.len() && names_pair(#[trigger] pieces[i], name) && forall|j: int|
                    0 <= j < i ==> !names_pair(#[trigger] pieces[j], name),
        )
    } else {
        None
    }
}

/// The value, still encoded, of the first pair named `name` among the
/// `&`-separated pieces of `query`: what stands between its first and its
/// second `=`.
pub open spec fn raw_param(query: Seq<char>, name: Seq<char>) -> Option<Seq<char>> {
    let pieces = split_on(query, '&');
    match first_pair(pieces, name) {
        Some(i) => Some(split_on(pieces[i], '=')[1]),
        None => None,
    }
}

/// The decoded value of the first pair named `name` in `query`; nothing
/// when there is no such pair or its value does not decode.
pub open spec fn param_value(query: Seq<char>, name: Seq<char>) -> Option<Seq<char>> {
    match raw_param(query, name) {
        Some(v) => url_decoded(v),
        None => None,
    }
}

/// Whether `piece` is a pair named `name`.
fn is_pair_named(piece: &str, name: &str) -> (r: bool)
    ensures
        r == names_pair(piece@, name@),
{
    let n = name.unicode_len();
    let m = piece.unicode_len();
    if m <= n {
        return false;
    }
    let mut i: usize = 0;
    while i < n
        invariant
            n == name@.len(),
            m == piece@.len(),
            n < m,
            i <= n,
            forall|j: int| 0 <= j < i ==> piece@[j] == name@[j],
        decreases n - i,
    {
        if piece.get_char(i) != name.get_char(i) {
            assert(piece@.take(n as int)[i as int] != name@[i as int]);
            return false;
        }
        i = i + 1;
    }
    assert(piece@.take(n as int) =~= name@);
    piece.get_char(n) == '='
}

/// The query of a request, read as `name=value` pairs between `&`s.
pub struct Params<'a>(pub &'a str);

impl<'a> Params<'a> {
    /// The parameters of a request with the query `query`, if it has one.
    pub fn new(query: Option<&'a str>) -> (r: Option<Params<'a>>)
        ensures
            match query {
                Some(q) => r matches Some(p) && p.0@ == q@,
                None => r is None,
            },
    {
        match query {
            Some(q) => Some(Params(q)),
            None => None,
        }
    }

    /// The decoded value of the first pair named `name`: nothing when no
    /// pair has that name or its value does not decode.
    pub fn get_str(&self, name: &str) -> (r: Option<String>)
        ensures
            match r {
                Some(v) => param_value(self.0@, name@) == Some(v@),
                None => param_value(self.0@, name@) is None,
            },
            raw_param(self.0@, name@) matches Some(raw) ==> (!has_percent(raw) ==> (r matches Some(
                v,
            ) && v@ == raw)),
    {
        let pieces = split_text(self.0, '&');
        let ghost ps = split_on(self.0@, '&');
        let mut i: usize = 0;
        while i < pieces.len()
            invariant
                ps == split_on(self.0@, '&'),
                texts(pieces@) == ps,
                i <= pieces@.len(),
                forall|j: int| 0 <= j < i ==> !names_pair(#[trigger] ps[j], name@),
            decreases pieces@.len() - i,
        {
            assert(pieces@[i as int]@ == ps[i as int]);
            if is_pair_named(pieces[i].as_str(), name) {
                let ghost k = i as int;
                assert(names_pair(ps[k], name@));
                let ghost c = choose|c: int|
                    0 <= c < ps.len() && names_pair(#[trigger] ps[c], name@) && forall|j: int|
                        0 <= j < c ==> !names_pair(#[trigger] ps[j], name@);
                assert(c == k) by {
                    if c < k {
                        assert(!names_pair(ps[c], name@));
                    } else if k < c {
                        assert(!names_pair(ps[k], name@));
                    }
                }
                let piece = pieces[i].as_str();
                assert(piece@ == ps[k]);
                let halves = split_text(piece, '=');
                assert(texts(halves@) == split_on(ps[k], '='));
                proof {
                    lemma_split_on_two(ps[k], '=', name@.len() as int);
                }
                let value = halves[1].as_str();
                assert(first_pair(ps, name@) == Some(k));
                assert(value@ == texts(halves@)[1]);
                return url_decode(value);
            }
            i = i + 1;
        }
        None
    }

    /// As `get_str`.
    pub fn get(&self, name: &str) -> (r: Option<String>)
        ensures
            match r {
                Some(v) => param_value(self.0@, name@) == Some(v@),
                None => param_value(self.0@, name@) is None,
            },
            raw_param(self.0@, name@) matches Some(raw) ==> (!has_percent(raw) ==> (r matches Some(
                v,
            ) && v@ == raw)),
    {
        self.get_str(name)
    }
}

/// The content type under which an image with the file extension `ext` is
/// served: SVG for `svg`, WebP for anything else.
pub fn image_content_type(ext: &str) -> (r: &'static str)
    ensures
        r@ == (if ext@ == "svg"@ {
            "image/svg+xml"@
        } else {
            "image/webp"@
        }),
{
    proof {
        reveal_strlit("svg");
    }
    if ext.unicode_len() == 3 && ext.get_char(0) == 's' && ext.get_char(1) == 'v' && ext.get_char(2)
        == 'g' {
        assert(ext@ =~= "svg"@);
        "image/svg+xml"
    } else {
        proof {
            if ext@ == "svg"@ {
                assert(ext@[0] == 's' && ext@[1] == 'v' && ext@[2] == 'g');
            }
        }
        "image/webp"
    }
}

/// The index of the last `c` in `s`, if any.
#[verifier::opaque]
pub open spec fn last_index_of(s: Seq<char>, c: char) -> Option<int> {
    if exists|i: int| 0 <= i < s.len() && s[i] == c {
        Some(choose|i: int| 0 <= i < s.len() && s[i] == c && forall|j: int| i < j < s.len() ==> s[j] != c)
    } else {
        None
    }
}

/// `pat` stands in `s` at `i`.
pub open spec fn occurs_at(s: Seq<char>, pat: Seq<char>, i: int) -> bool {
    0 <= i && i + pat.len() <= s.len() && s.subrange(i, i + pat.len()) == pat
}

/// The index of the first place where `pat` stands in `s`, if any.
#[verifier::opaque]
pub open spec fn first_occurrence(s: Seq<char>, pat: Seq<char>) -> Option<int> {
    if exists|i: int| occurs_at(s, pat, i) {
        Some(choose|i: int| occurs_at(s, pat, i) && forall|j: int| 0 <= j < i ==> !occurs_at(s, pat, j))
    } else {
        None
    }
}

/// What a query asks of the auxiliary files of an archive: the part before
/// its last `?` (all of it when there is none) must start with `a=`; after
/// that comes the archive up to the first `&f=`, and the file after it.
pub open spec fn aux_parts(query: Seq<char>) -> Option<(Seq<char>, Seq<char>)> {
    let q = before_last(query, '?');
    if q.len() >= 2 && q[0] == 'a' && q[1] == '=' {
        let rest = q.skip(2);
        match first_occurrence(rest, seq!['&', 'f', '=']) {
            Some(j) => Some((rest.take(j), rest.skip(j + 3))),
            None => None,
        }
    } else {
        None
    }
}

/// `s` up to its last `c`; all of `s` when it holds no `c`.
pub open spec fn before_last(s: Seq<char>, c: char) -> Seq<char> {
    match last_index_of(s, c) {
        Some(i) => s.take(i),
        None => s,
    }
}

/// The index of the last `c` in `s`, if any.
fn find_last_char(s: &str, c: char) -> (r: Option<usize>)
    ensures
        match r {
            Some(i) => i < s@.len() && s@[i as int] == c && forall|j: int| i < j < s@.len() ==> s@[j] != c,
            None => forall|j: int| 0 <= j < s@.len() ==> s@[j] != c,
        },
{
    let n = s.unicode_len();
    let mut i: usize = n;
    while i > 0
        invariant
            n == s@.len(),
            i <= n,
            forall|j: int| i <= j < n ==> s@[j] != c,
        decreases i,
    {
        i = i - 1;
        if s.get_char(i) == c {
            return Some(i);
        }
    }
    None
}

/// The index of the first place where `&f=` stands in `s`, if any.
fn find_file_marker(s: &str) -> (r: Option<usize>)
    ensures
        match r {
            Some(j) => first_occurrence(s@, seq!['&', 'f', '=']) == Some(j as int) && j + 3 <= s@.len(),
            None => first_occurrence(s@, seq!['&', 'f', '=']) is None,
        },
{
    let ghost pat = seq!['&', 'f', '='];
    proof {
        reveal(first_occurrence);
    }
    let n = s.unicode_len();
    if n < 3 {
        assert(!exists|i: int| occurs_at(s@, pat, i));
        return None;
    }
    let mut i: usize = 0;
    while i <= n - 3
        invariant
            pat == seq!['&', 'f', '='],
            n == s@.len(),
            n >= 3,
            i <= n - 2,
            forall|j: int| 0 <= j < i ==> !occurs_at(s@, pat, j),
        decreases n - i,
    {
        if s.get_char(i) == '&' && s.get_char(i + 1) == 'f' && s.get_char(i + 2) == '=' {
            assert(s@.subrange(i as int, i + 3) =~= pat);
            assert(occurs_at(s@, pat, i as int));
            assert(occurs_at(s@, pat, i as int) && forall|j: int| 0 <= j < i ==> !occurs_at(s@, pat, j));
            let ghost c = choose|c: int| occurs_at(s@, pat, c) && forall|j: int| 0 <= j < c ==> !occurs_at(s@, pat, j);
            assert(c == i) by {
                if c > i {
                    assert(!occurs_at(s@, pat, i as int));
                }
            }
            assert(first_occurrence(s@, pat) == Some(i as int)) by {
                reveal(first_occurrence);
            }
            return Some(i);
        }
        assert(!occurs_at(s@, pat, i as int)) by {
            if occurs_at(s@, pat, i as int) {
                assert(s@.subrange(i as int, i + 3)[0] == s@[i as int]);
                assert(s@.subrange(i as int, i + 3)[1] == s@[i + 1]);
                assert(s@.subrange(i as int, i + 3)[2] == s@[i + 2]);
            }
        }
        i = i + 1;
    }
    assert(!exists|j: int| occurs_at(s@, pat, j));
    assert(first_occurrence(s@, pat) is None) by {
        reveal(first_occurrence);
    }
    None
}

/// `s` up to its last `c`; all of `s` when it holds no `c`.
fn text_before_last(s: &str, c: char) -> (r: &str)
    ensures
        r@ == before_last(s@, c),
{
    proof {
        reveal(last_index_of);
    }
    match find_last_char(s, c) {
        Some(i) => {
            proof {
                let k = last_index_of(s@, c)->0;
                assert(k == i) by {
                    if k < i {
                        assert(s@[i as int] != c);
                    } else if i < k {
                        assert(s@[k] != c);
                    }
                }
            }
            let r = s.substring_char(0, i);
            assert(r@ =~= s@.take(i as int));
            r
        },
        None => {
            assert(last_index_of(s@, c) is None);
            let r = s.substring_char(0, s.unicode_len());
            assert(r@ =~= s@);
            r
        },
    }
}

/// The archive and the file that a request for an auxiliary file asks for
/// in its query (see `aux_parts`); nothing when the query does not have
/// that shape.
pub fn aux_request(query: &str) -> (r: Option<(String, String)>)
    ensures
        match aux_parts(query@) {
            Some((a, f)) => r matches Some((a2, f2)) && a2@ == a && f2@ == f,
            None => r is None,
        },
{
    let q = text_before_last(query, '?');
    let n = q.unicode_len();
    if n < 2 || q.get_char(0) != 'a' || q.get_char(1) != '=' {
        return None;
    }
    let rest = q.substring_char(2, n);
    assert(rest@ =~= q@.skip(2));
    match find_file_marker(rest) {
        Some(j) => {
            let m = rest.unicode_len();
            let a = rest.substring_char(0, j);
            let f = rest.substring_char(j + 3, m);
            assert(a@ =~= rest@.take(j as int));
            assert(f@ =~= rest@.skip(j + 3));
            Some((a.to_string(), f.to_string()))
        },
        None => None,
    }
}

} // verus!
