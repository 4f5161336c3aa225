use vstd::prelude::*;
use vstd::string::*;

verus! {

/// The pieces of `s` between the `sep`s, in order, empty ones included (as
/// `str::split` gives them).
pub open spec fn split_on(s: Seq<char>, sep: char) -> Seq<Seq<char>>
    decreases s.len(),
{
    if s.len() == 0 {
        seq![Seq::empty()]
    } else {
        let prev = split_on(s.drop_last(), sep);
        if s.last() == sep {
            prev.push(Seq::empty())
        } else {
            prev.update(prev.len() - 1, prev.last().push(s.last()))
        }
    }
}

/// Splitting gives at least one piece.
pub proof fn lemma_split_on_nonempty(s: Seq<char>, sep: char)
    ensures
        split_on(s, sep).len() >= 1,
    decreases s.len(),
{
    if s.len() > 0 {
        lemma_split_on_nonempty(s.drop_last(), sep);
    }
}

/// A text that holds a separator splits into at least two pieces.
pub proof fn lemma_split_on_two(s: Seq<char>, sep: char, i: int)
    requires
        0 <= i < s.len(),
        s[i] == sep,
    ensures
        split_on(s, sep).len() >= 2,
    decreases s.len(),
{
    lemma_split_on_nonempty(s.drop_last(), sep);
    if i < s.len() - 1 {
        lemma_split_on_two(s.drop_last(), sep, i);
    }
}

/// Splitting `a`, a separator and `b` gives the pieces of `a` followed by
/// those of `b`.
pub proof fn lemma_split_on_concat(a: Seq<char>, b: Seq<char>, sep: char)
    ensures
        split_on(a + seq![sep] + b, sep) == split_on(a, sep) + split_on(b, sep),
    decreases b.len(),
{
    let s = a + seq![sep] + b;
    if b.len() == 0 {
        assert(s.drop_last() =~= a);
        assert(split_on(b, sep) =~= seq![Seq::<char>::empty()]);
        assert(split_on(s, sep) =~= split_on(a, sep) + split_on(b, sep));
    } else {
        let b1 = b.drop_last();
        lemma_split_on_concat(a, b1, sep);
        lemma_split_on_nonempty(b1, sep);
        lemma_split_on_nonempty(a, sep);
        assert(s.drop_last() =~= a + seq![sep] + b1);
        assert(s.last() == b.last());
        let x = split_on(a, sep);
        let y = split_on(b1, sep);
        if b.last() == sep {
            assert(split_on(s, sep) =~= (x + y).push(Seq::empty()));
            assert(split_on(b, sep) == y.push(Seq::empty()));
            assert((x + y).push(Seq::empty()) =~= x + y.push(Seq::empty()));
        } else {
            let c = b.last();
            assert((x + y).last() == y.last());
            assert(split_on(s, sep) == (x + y).update((x + y).len() - 1, y.last().push(c)));
            assert(split_on(b, sep) == y.update(y.len() - 1, y.last().push(c)));
            assert((x + y).update((x + y).len() - 1, y.last().push(c)) =~= x + y.update(
                y.len() - 1,
                y.last().push(c),
            ));
        }
    }
}

/// `String::push`: appends the character to the string.
#[verifier::external_body]
pub(crate) fn push_char(s: &mut String, c: char)
    ensures
        final(s)@ == old(s)@.push(c),
{
    s.push(c);
}

/// The texts of some strings.
pub open spec fn texts(v: Seq<String>) -> Seq<Seq<char>> {
    v.map_values(|t: String| t@)
}

/// The pieces of `s` between the `sep`s.
pub(crate) fn split_text(s: &str, sep: char) -> (r: Vec<String>)
    ensures
        texts(r@) == split_on(s@, sep),
{
    let mut out: Vec<String> = Vec::new();
    let mut cur = String::new();
    let ghost chars = s@;
    for c in it: s.chars()
        invariant
            it.seq() == chars,
            chars == s@,
            ({
                let sp = split_on(chars.take(it.index() as int), sep);
                &&& sp.len() >= 1
                &&& texts(out@) == sp.drop_last()
                &&& cur@ == sp.last()
            }),
    {
        let ghost k = it.index() as int;
        let ghost prev_out = out@;
        let ghost sp = split_on(chars.take(k), sep);
        proof {
            assert(chars.take(k + 1).drop_last() =~= chars.take(k));
            assert(c == chars[k]);
            assert(chars.take(k + 1).last() == c);
            lemma_split_on_nonempty(chars.take(k), sep);
        }
        if c == sep {
            let mut done = String::new();
            std::mem::swap(&mut cur, &mut done);
            out.push(done);
            assert(texts(out@) =~= texts(prev_out).push(sp.last()));
            assert(split_on(chars.take(k + 1), sep) == sp.push(Seq::empty()));
            assert(texts(out@) =~= split_on(chars.take(k + 1), sep).drop_last());
        } else {
            push_char(&mut cur, c);
            assert(split_on(chars.take(k + 1), sep) == sp.update(sp.len() - 1, sp.last().push(c)));
            assert(texts(out@) =~= split_on(chars.take(k + 1), sep).drop_last());
        }
    }
    proof {
        assert(chars.take(chars.len() as int) =~= chars);
        lemma_split_on_nonempty(s@, sep);
    }
    let ghost prev_out = out@;
    out.push(cur);
    assert(texts(out@) =~= texts(prev_out).push(split_on(s@, sep).last()));
    assert(texts(out@) =~= split_on(s@, sep));
    out
}

/// The index of the first `c` in `s`, if any.
pub open spec fn first_index_of(s: Seq<char>, c: char) -> Option<int> {
    if exists|i: int| 0 <= i < s.len() && s[i] == c {
        Some(choose|i: int| 0 <= i < s.len() && s[i] == c && forall|j: int| 0 <= j < i ==> s[j] != c)
    } else {
        None
    }
}

pub(crate) fn find_char(s: &str, c: char) -> (r: Option<usize>)
    ensures
        match r {
            Some(i) => i < s@.len() && s@[i as int] == c && forall|j: int| 0 <= j < i ==> s@[j] != c,
            None => forall|j: int| 0 <= j < s@.len() ==> s@[j] != c,
        },
{
    let ghost chars = s@;
    let n = s.unicode_len();
    let mut i: usize = 0;
    for d in it: s.chars()
        invariant
            it.seq() == chars,
            chars == s@,
            n == chars.len(),
            i == it.index(),
            forall|j: int| 0 <= j < i ==> chars[j] != c,
    {
        assert(d == chars[i as int]);
        if d == c {
            return Some(i);
        }
        i = i + 1;
    }
    None
}

} // verus!
