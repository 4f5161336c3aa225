use crate::names::{steps_view, Name};
use crate::text::{split_on, split_text, texts};
use crate::uris::SymbolURI;
use vstd::prelude::*;

verus! {

/// A place in a text as the editor names it: a line, counted from zero, and
/// a number of characters into it.
#[derive(Clone, Copy)]
pub struct Position {
    pub line: u32,
    pub character: u32,
}

/// The text of an open document, and whether its rendering is up to date.
pub struct LSPText {
    pub text: String,
    pub html_up_to_date: bool,
}

/// The number of bytes that UTF-8 takes for `c`.
pub open spec fn utf8_len(c: char) -> nat {
    if (c as u32) < 0x80 {
        1
    } else if (c as u32) < 0x800 {
        2
    } else if (c as u32) < 0x10000 {
        3
    } else {
        4
    }
}

/// The number of bytes that UTF-8 takes for `s`.
pub open spec fn utf8_size(s: Seq<char>) -> nat
    decreases s.len(),
{
    if s.len() == 0 {
        0
    } else {
        utf8_size(s.drop_last()) + utf8_len(s.last())
    }
}

/// `char::len_utf8`.
fn char_utf8_len(c: char) -> (r: usize)
    ensures
        r == utf8_len(c),
{
    let u = c as u32;
    if u < 0x80 {
        1
    } else if u < 0x800 {
        2
    } else if u < 0x10000 {
        3
    } else {
        4
    }
}

/// The bytes of a prefix grow by those of the character that follows it,
/// and never exceed those of a longer prefix.
proof fn lemma_utf8_size_prefix(s: Seq<char>, k: int, m: int)
    requires
        0 <= k <= m <= s.len(),
    ensures
        k < s.len() ==> utf8_size(s.take(k + 1)) == utf8_size(s.take(k)) + utf8_len(s[k]),
        utf8_size(s.take(k)) <= utf8_size(s.take(m)),
    decreases m - k,
{
    if k < s.len() {
        assert(s.take(k + 1).drop_last() =~= s.take(k));
    }
    if k < m {
        lemma_utf8_size_prefix(s, k + 1, m);
    }
}

/// A character that ends a line: `\n` or `\r`.
pub open spec fn is_break_char(c: char) -> bool {
    c == '\n' || c == '\r'
}

/// The first index from `from` on where `s` breaks a line, if any.
pub open spec fn next_break(s: Seq<char>, from: int) -> Option<int>
    decreases s.len() - from,
{
    if from < 0 || from >= s.len() {
        None
    } else if is_break_char(s[from]) {
        Some(from)
    } else {
        next_break(s, from + 1)
    }
}

/// How many characters the line break at `i` takes: two for `\r\n`, one
/// for a lone `\n` or `\r`.
pub open spec fn break_len(s: Seq<char>, i: int) -> int {
    if s[i] == '\r' && i + 1 < s.len() && s[i + 1] == '\n' {
        2
    } else {
        1
    }
}

/// The index where the line `line` lines after the one starting at `from`
/// starts; nothing when the text ends first.
pub open spec fn line_start(s: Seq<char>, from: int, line: nat) -> Option<int>
    decreases line,
{
    if line == 0 {
        Some(from)
    } else {
        match next_break(s, from) {
            Some(i) => line_start(s, i + break_len(s, i), (line - 1) as nat),
            None => None,
        }
    }
}

/// The byte offset in `s` of the place `character` characters after the
/// start of line `line`, where characters may run on past the end of the
/// line but not past the end of the text; the end of the text when it has
/// fewer lines.
pub open spec fn position_offset(s: Seq<char>, line: nat, character: nat) -> nat {
    match line_start(s, 0, line) {
        Some(p) => utf8_size(
            s.take(
                if p + character <= s.len() {
                    p + character
                } else {
                    s.len() as int
                },
            ),
        ),
        None => utf8_size(s),
    }
}

/// The characters of `s`, in order.
fn chars_of(s: &str) -> (r: Vec<char>)
    ensures
        r@ == s@,
{
    let mut v: Vec<char> = Vec::new();
    for c in it: s.chars()
        invariant
            it.seq() == s@,
            v@ == s@.take(it.index() as int),
    {
        assert(s@.take(it.index() + 1) =~= v@.push(c));
        v.push(c);
    }
    assert(s@.take(s@.len() as int) =~= s@);
    v
}

/// No line break from `from` up to `i`: the next break from `from` is the
/// next one from `i`.
proof fn lemma_next_break_skip(s: Seq<char>, from: int, i: int)
    requires
        0 <= from <= i,
        forall|j: int| from <= j < i ==> !is_break_char(#[trigger] s[j]),
    ensures
        next_break(s, from) == next_break(s, i),
    decreases i - from,
{
    if from < i {
        lemma_next_break_skip(s, from + 1, i);
    }
}

impl LSPText {
    /// The byte offset of the place `pos` in the text (see
    /// `position_offset`): lines end at `\r\n`, `\n` or `\r`, and the
    /// characters into a line are counted as Unicode scalar values.
    pub fn get_position(&self, pos: Position) -> (r: usize)
        requires
            utf8_size(self.text@) <= usize::MAX,
        ensures
            r == position_offset(self.text@, pos.line as nat, pos.character as nat),
    {
        let cs = chars_of(self.text.as_str());
        let ghost s = self.text@;
        let n = cs.len();
        let mut line = pos.line;
        let mut at: usize = 0;
        let mut off: usize = 0;
        proof {
            assert(s.take(0) =~= Seq::<char>::empty());
        }
        while line > 0
            invariant
                s == self.text@,
                cs@ == s,
                n == s.len(),
                at <= n,
                utf8_size(s) <= usize::MAX,
                off == utf8_size(s.take(at as int)),
                line_start(s, 0, pos.line as nat) == line_start(s, at as int, line as nat),
            decreases line,
        {
            let ghost start = at as int;
            let mut i = at;
            while i < n && cs[i] != '\n' && cs[i] != '\r'
                invariant
                    s == self.text@,
                    cs@ == s,
                    n == s.len(),
                    0 <= start <= i <= n,
                    utf8_size(s) <= usize::MAX,
                    off == utf8_size(s.take(i as int)),
                    forall|j: int| start <= j < i ==> !is_break_char(#[trigger] s[j]),
                decreases n - i,
            {
                proof {
                    lemma_utf8_size_prefix(s, i as int, n as int);
                    lemma_utf8_size_prefix(s, i + 1, n as int);
                    assert(s.take(n as int) =~= s);
                }
                off = off + char_utf8_len(cs[i]);
                i = i + 1;
            }
            proof {
                lemma_next_break_skip(s, start, i as int);
            }
            if i == n {
                proof {
                    assert(next_break(s, i as int) is None);
                    assert(line_start(s, at as int, line as nat) is None);
                    assert(s.take(n as int) =~= s);
                }
                return off;
            }
            proof {
                assert(next_break(s, i as int) == Some(i as int));
                lemma_utf8_size_prefix(s, i as int, n as int);
                lemma_utf8_size_prefix(s, i + 1, n as int);
                assert(s.take(n as int) =~= s);
            }
            off = off + 1;
            if cs[i] == '\r' && i + 1 < n && cs[i + 1] == '\n' {
                proof {
                    lemma_utf8_size_prefix(s, i + 1, n as int);
                    lemma_utf8_size_prefix(s, i + 2, n as int);
                }
                off = off + 1;
                at = i + 2;
            } else {
                at = i + 1;
            }
            line = line - 1;
        }
        let mut k: u32 = 0;
        while k < pos.character && at < n
            invariant
                s == self.text@,
                cs@ == s,
                n == s.len(),
                at <= n,
                k <= pos.character,
                utf8_size(s) <= usize::MAX,
                off == utf8_size(s.take(at as int)),
                line_start(s, 0, pos.line as nat) is Some,
                at == line_start(s, 0, pos.line as nat)->0 + k,
            decreases pos.character - k,
        {
            proof {
                lemma_utf8_size_prefix(s, at as int, n as int);
                lemma_utf8_size_prefix(s, at + 1, n as int);
                assert(s.take(n as int) =~= s);
            }
            off = off + char_utf8_len(cs[at]);
            at = at + 1;
            k = k + 1;
        }
        off
    }
}

/// Steps joined by `/`, as a name is written.
pub open spec fn joined(steps: Seq<Seq<char>>) -> Seq<char>
    decreases steps.len(),
{
    if steps.len() == 0 {
        Seq::empty()
    } else if steps.len() == 1 {
        steps[0]
    } else {
        steps[0] + seq!['/'] + joined(steps.drop_first())
    }
}

/// Joining one more step at the end puts a `/` before it.
proof fn lemma_joined_push(steps: Seq<Seq<char>>, x: Seq<char>)
    ensures
        joined(steps.push(x)) == (if steps.len() == 0 {
            x
        } else {
            joined(steps) + seq!['/'] + x
        }),
    decreases steps.len(),
{
    let sp = steps.push(x);
    if steps.len() == 0 {
        assert(sp.len() == 1 && sp[0] == x);
    } else if steps.len() == 1 {
        assert(sp.drop_first() =~= seq![x]);
        assert(joined(seq![x]) == x);
        assert(joined(sp) == sp[0] + seq!['/'] + joined(sp.drop_first()));
        assert(sp[0] == steps[0]);
    } else {
        assert(sp.drop_first() =~= steps.drop_first().push(x));
        lemma_joined_push(steps.drop_first(), x);
        assert(joined(sp) == sp[0] + seq!['/'] + joined(sp.drop_first()));
        assert(sp[0] == steps[0]);
        assert(steps[0] + seq!['/'] + (joined(steps.drop_first()) + seq!['/'] + x) =~= (steps[0]
            + seq!['/'] + joined(steps.drop_first())) + seq!['/'] + x);
    }
}

/// The ways of naming the symbol `u`, shortest first, that `disamb` tries:
/// `?name`, then `?module?name`, then with the steps of the module's path
/// put in front one by one from the last, then with the steps of the
/// archive's identifier put in front one by one from the last, each
/// followed by a `/`.
pub open spec fn disamb_candidates(u: SymbolURI) -> Seq<Seq<char>> {
    let c0 = seq!['?'] + joined(u.name@);
    let c1 = seq!['?'] + joined(u.module.name@) + c0;
    let ps = match u.module.path.path {
        Some(n) => n@,
        None => Seq::empty(),
    };
    let with_path = if ps.len() == 0 {
        c1
    } else {
        joined(ps) + c1
    };
    let arch = split_on(u.module.path.archive.archive.0@, '/');
    seq![c0, c1] + Seq::new(ps.len(), |k: int| joined(ps.skip(ps.len() - 1 - k)) + c1) + Seq::new(
        arch.len(),
        |k: int| joined(arch.skip(arch.len() - 1 - k)) + seq!['/'] + with_path,
    )
}

/// `s` ends with `c`.
pub open spec fn has_suffix(s: Seq<char>, c: Seq<char>) -> bool {
    c.len() <= s.len() && s.skip(s.len() - c.len()) == c
}

/// How many of `all` end with `c`.
pub open spec fn suffix_count(all: Seq<Seq<char>>, c: Seq<char>) -> nat
    decreases all.len(),
{
    if all.len() == 0 {
        0
    } else {
        suffix_count(all.drop_last(), c) + if has_suffix(all.last(), c) {
            1nat
        } else {
            0nat
        }
    }
}

/// The first of `cands` that exactly one of `all` ends with; the last of
/// them when there is none.
pub open spec fn first_unique(all: Seq<Seq<char>>, cands: Seq<Seq<char>>) -> Seq<char>
    decreases cands.len(),
{
    if cands.len() == 0 {
        Seq::empty()
    } else if cands.len() == 1 || suffix_count(all, cands[0]) == 1 {
        cands[0]
    } else {
        first_unique(all, cands.drop_first())
    }
}

/// Appends `s` to `out`.
fn put_str(out: &mut String, s: &str)
    ensures
        final(out)@ == old(out)@ + s@,
{
    out.append(s);
}

/// The text of a name: its steps joined by `/`.
pub(crate) fn name_text(n: &Name) -> (r: String)
    ensures
        r@ == joined(n@),
{
    let mut out = String::new();
    let mut i: usize = 0;
    while i < n.0.len()
        invariant
            i <= n@.len(),
            n@.len() == n.0@.len(),
            out@ == joined(n@.take(i as int)),
        decreases n.0.len() - i,
    {
        proof {
            assert(n@.take(i + 1) =~= n@.take(i as int).push(n@[i as int]));
            lemma_joined_push(n@.take(i as int), n@[i as int]);
        }
        if i > 0 {
            put_str(&mut out, "/");
            proof {
                reveal_strlit("/");
            }
        }
        assert(n.0@[i as int]@ == n@[i as int]);
        put_str(&mut out, n.0[i].0.as_str());
        i = i + 1;
    }
    assert(n@.take(n@.len() as int) =~= n@);
    out
}

/// Whether `s` ends with `c`.
fn ends_with(s: &str, c: &str) -> (r: bool)
    ensures
        r == has_suffix(s@, c@),
{
    let n = s.unicode_len();
    let m = c.unicode_len();
    if m > n {
        return false;
    }
    let mut i: usize = 0;
    while i < m
        invariant
            n == s@.len(),
            m == c@.len(),
            m <= n,
            i <= m,
            forall|j: int| 0 <= j < i ==> s@[n - m + j] == c@[j],
        decreases m - i,
    {
        if s.get_char(n - m + i) != c.get_char(i) {
            assert(s@.skip(n - m)[i as int] != c@[i as int]);
            return false;
        }
        i = i + 1;
    }
    assert(s@.skip(n - m) =~= c@);
    true
}

/// How many of `all` end with `c`.
fn count_suffix(all: &[String], c: &str) -> (r: usize)
    ensures
        r == suffix_count(texts(all@), c@),
{
    let mut k: usize = 0;
    let mut i: usize = 0;
    while i < all.len()
        invariant
            i <= all@.len(),
            k == suffix_count(texts(all@.take(i as int)), c@),
            k <= i,
        decreases all@.len() - i,
    {
        proof {
            assert(texts(all@.take(i + 1)).drop_last() =~= texts(all@.take(i as int)));
        }
        if ends_with(all[i].as_str(), c) {
            k = k + 1;
        }
        i = i + 1;
    }
    assert(all@.take(all@.len() as int) =~= all@);
    k
}

/// The texts `prefix`, `mid` and `rest`, one after the other.
fn concat3(prefix: &str, mid: &str, rest: &str) -> (r: String)
    ensures
        r@ == prefix@ + mid@ + rest@,
{
    let mut out = String::new();
    put_str(&mut out, prefix);
    put_str(&mut out, mid);
    put_str(&mut out, rest);
    out
}

/// The ways of naming `u` (see `disamb_candidates`).
fn candidates(u: &SymbolURI) -> (r: Vec<String>)
    ensures
        texts(r@) == disamb_candidates(*u),
{
    proof {
        reveal_strlit("?");
        reveal_strlit("/");
        reveal_strlit("");
    }
    let name = name_text(&u.name);
    let c0 = concat3("?", name.as_str(), "");
    let module = name_text(&u.module.name);
    let c1 = concat3("?", module.as_str(), c0.as_str());
    assert(c0@ =~= seq!['?'] + joined(u.name@));
    assert(c1@ =~= seq!['?'] + joined(u.module.name@) + c0@);
    let mut out: Vec<String> = Vec::new();
    out.push(c0);
    out.push(c1.clone());
    let ghost ps = if u.module.path.path is Some {
        u.module.path.path->0@
    } else {
        Seq::<Seq<char>>::empty()
    };
    let ghost pc = Seq::new(ps.len(), |k: int| joined(ps.skip(ps.len() - 1 - k)) + c1@);
    let ghost start = texts(out@);
    let mut with_path = c1.clone();
    match &u.module.path.path {
        Some(p) => {
            let steps = &p.0;
            let len = steps.len();
            let mut tail = String::new();
            let mut k: usize = 0;
            #[verifier::loop_isolation(false)]
            while k < len
                invariant
                    ps == p@,
                    len == ps.len(),
                    steps@.len() == len,
                    p@ == steps_view(steps@),
                    k <= len,
                    texts(out@) == start + pc.take(k as int),
                    k > 0 ==> tail@ == joined(ps.skip(len - k)),
                    k > 0 ==> with_path@ == tail@ + c1@,
                    k == 0 ==> with_path@ == c1@,
                decreases len - k,
            {
                proof {
                    reveal_strlit("");
                    reveal_strlit("/");
                }
                let step = steps[len - 1 - k].0.as_str();
                assert(step@ == ps[len - 1 - k]);
                let ghost skipped = ps.skip(len - 1 - k);
                proof {
                    if k == 0 {
                        assert(skipped =~= seq![ps[len - 1 - k]]);
                    } else {
                        assert(skipped.drop_first() =~= ps.skip(len - k));
                    }
                }
                if k == 0 {
                    tail = concat3(step, "", "");
                } else {
                    tail = concat3(step, "/", tail.as_str());
                }
                assert(tail@ =~= joined(skipped));
                let cand = concat3(tail.as_str(), c1.as_str(), "");
                assert(cand@ =~= pc[k as int]);
                with_path = cand.clone();
                let ghost prev = out@;
                let ghost cv = cand@;
                out.push(cand);
                assert(texts(out@) =~= texts(prev).push(cv));
                assert(texts(out@) =~= start + pc.take(k + 1));
                k = k + 1;
            }
            assert(pc.take(len as int) =~= pc);
            proof {
                if len > 0 {
                    assert(ps.skip(0) =~= ps);
                }
            }
        },
        None => {
            assert(pc =~= Seq::<Seq<char>>::empty());
            assert(texts(out@) =~= start + pc);
        },
    }
    let ghost wp = with_path@;
    assert(wp == (if ps.len() == 0 {
        c1@
    } else {
        joined(ps) + c1@
    }));
    let arch = split_text(u.module.path.archive.archive.0.as_str(), '/');
    let ghost asteps = split_on(u.module.path.archive.archive.0@, '/');
    let ghost ac = Seq::new(
        asteps.len(),
        |k: int| joined(asteps.skip(asteps.len() - 1 - k)) + seq!['/'] + wp,
    );
    let ghost mid = texts(out@);
    let alen = arch.len();
    let mut tail = String::new();
    let mut k: usize = 0;
    #[verifier::loop_isolation(false)]
    while k < alen
        invariant
            texts(arch@) == asteps,
            alen == asteps.len(),
            k <= alen,
            with_path@ == wp,
            texts(out@) == mid + ac.take(k as int),
            k > 0 ==> tail@ == joined(asteps.skip(alen - k)),
        decreases alen - k,
    {
        proof {
            reveal_strlit("");
            reveal_strlit("/");
        }
        let step = arch[alen - 1 - k].as_str();
        assert(step@ == asteps[alen - 1 - k]);
        let ghost skipped = asteps.skip(alen - 1 - k);
        proof {
            if k == 0 {
                assert(skipped =~= seq![asteps[alen - 1 - k]]);
            } else {
                assert(skipped.drop_first() =~= asteps.skip(alen - k));
            }
        }
        if k == 0 {
            tail = concat3(step, "", "");
        } else {
            tail = concat3(step, "/", tail.as_str());
        }
        assert(tail@ =~= joined(skipped));
        let cand = concat3(tail.as_str(), "/", with_path.as_str());
        assert(cand@ =~= ac[k as int]);
        let ghost prev = out@;
        let ghost cv = cand@;
        out.push(cand);
        assert(texts(out@) =~= texts(prev).push(cv));
        assert(texts(out@) =~= mid + ac.take(k + 1));
        k = k + 1;
    }
    assert(ac.take(alen as int) =~= ac);
    assert(texts(out@) =~= disamb_candidates(*u));
    out
}

/// The shortest way of naming the symbol `uri` that tells it apart among
/// the symbol names `all`: the first of `disamb_candidates` that exactly
/// one of `all` ends with, or the longest of them when none is.
pub fn disamb(uri: &SymbolURI, all: &[String]) -> (r: String)
    ensures
        r@ == first_unique(texts(all@), disamb_candidates(*uri)),
{
    let cands = candidates(uri);
    let ghost cs = texts(cands@);
    assert(cs.skip(0) =~= cs);
    let n = cands.len();
    let mut i: usize = 0;
    while i + 1 < n
        invariant
            cs == texts(cands@),
            cs == disamb_candidates(*uri),
            n == cands@.len(),
            n >= 2,
            i + 1 <= n,
            first_unique(texts(all@), cs) == first_unique(texts(all@), cs.skip(i as int)),
        decreases n - i,
    {
        let c = cands[i].as_str();
        proof {
            assert(cs.skip(i as int).drop_first() =~= cs.skip(i + 1));
            assert(cs.skip(i as int)[0] == c@);
        }
        if count_suffix(all, c) == 1 {
            return cands[i].clone();
        }
        i = i + 1;
    }
    proof {
        assert(cs.skip(i as int).len() == 1);
    }
    cands[i].clone()
}

} // verus!
