use std::ops::Div;
use std::str::FromStr;
use crate::text::{lemma_split_on_concat, lemma_split_on_nonempty, push_char, split_on};
use vstd::prelude::*;

verus! {

/// One `/`-separated step of a name.
pub struct NameStep(pub String);

/// A name: a non-empty path of steps, as in `a/b/c`.
pub struct Name(pub Vec<NameStep>);

/// A name was to hold a character that URIs reserve.
pub struct InvalidURICharacter;

/// The characters that no step of a name may hold.
pub open spec fn is_invalid_char(c: char) -> bool {
    c == '\\' || c == '{' || c == '}'
}

/// Whether `s` holds a character that no step of a name may hold.
pub open spec fn has_invalid_char(s: Seq<char>) -> bool {
    exists|i: int| 0 <= i < s.len() && is_invalid_char(#[trigger] s[i])
}

/// The pieces of `s` between the `/`s, in order, empty ones included (as
/// `str::split` gives them): one piece more than there are `/`s.
pub open spec fn split_steps(s: Seq<char>) -> Seq<Seq<char>> {
    split_on(s, '/')
}

/// The texts of some steps.
pub open spec fn steps_view(s: Seq<NameStep>) -> Seq<Seq<char>> {
    s.map_values(|n: NameStep| n.0@)
}

impl View for NameStep {
    type V = Seq<char>;

    open spec fn view(&self) -> Seq<char> {
        self.0@
    }
}

impl View for Name {
    type V = Seq<Seq<char>>;

    open spec fn view(&self) -> Seq<Seq<char>> {
        steps_view(self.0@)
    }
}

/// Appends the steps of `s` between its `/`s to `out`.
fn push_split_steps(out: &mut Vec<NameStep>, s: &str)
    ensures
        steps_view(final(out)@) == steps_view(old(out)@) + split_steps(s@),
{
    let ghost start = steps_view(out@);
    let mut cur = String::new();
    let ghost chars = s@;
    for c in it: s.chars()
        invariant
            it.seq() == chars,
            chars == s@,
            ({
                let sp = split_steps(chars.take(it.index() as int));
                &&& sp.len() >= 1
                &&& steps_view(out@) == start + sp.drop_last()
                &&& cur@ == sp.last()
            }),
    {
        let ghost k = it.index() as int;
        let ghost prev_out = out@;
        let ghost sp = split_steps(chars.take(k));
        proof {
            assert(chars.take(k + 1).drop_last() =~= chars.take(k));
            assert(c == chars[k]);
            assert(chars.take(k + 1).last() == c);
            lemma_split_on_nonempty(chars.take(k), '/');
        }
        if c == '/' {
            let mut done = String::new();
            std::mem::swap(&mut cur, &mut done);
            out.push(NameStep(done));
            assert(steps_view(out@) =~= steps_view(prev_out).push(sp.last()));
            assert(split_steps(chars.take(k + 1)) == sp.push(Seq::empty()));
            assert(steps_view(out@) =~= start + split_steps(chars.take(k + 1)).drop_last());
        } else {
            push_char(&mut cur, c);
            assert(split_steps(chars.take(k + 1)) == sp.update(sp.len() - 1, sp.last().push(c)));
            assert(steps_view(out@) =~= start + split_steps(chars.take(k + 1)).drop_last());
        }
    }
    proof {
        assert(chars.take(chars.len() as int) =~= chars);
    }
    let ghost prev_out = out@;
    out.push(NameStep(cur));
    proof {
        lemma_split_on_nonempty(s@, '/');
        assert(steps_view(out@) =~= steps_view(prev_out).push(split_steps(s@).last()));
        assert(steps_view(out@) =~= start + split_steps(s@));
    }
}

/// Whether `s` holds a character that no step of a name may hold.
fn contains_invalid_char(s: &str) -> (r: bool)
    ensures
        r == has_invalid_char(s@),
{
    let ghost chars = s@;
    for c in it: s.chars()
        invariant
            it.seq() == chars,
            chars == s@,
            forall|j: int| 0 <= j < it.index() ==> !is_invalid_char(#[trigger] chars[j]),
    {
        if c == '\\' || c == '{' || c == '}' {
            return true;
        }
    }
    false
}

impl Name {
    /// Extends the name by the steps of `rhs` between its `/`s; refused when
    /// `rhs` holds a reserved character.
    pub fn join_str(self, rhs: &str) -> (r: Result<Name, InvalidURICharacter>)
        ensures
            has_invalid_char(rhs@) <==> r is Err,
            r matches Ok(n) ==> n@ == self@ + split_steps(rhs@),
    {
        if contains_invalid_char(rhs) {
            return Err(InvalidURICharacter);
        }
        let mut steps = self.0;
        push_split_steps(&mut steps, rhs);
        Ok(Name(steps))
    }
}

impl Name {
    /// The name whose steps are the pieces of `s` between its `/`s; refused
    /// when `s` holds a reserved character.
    pub fn parse(s: &str) -> (r: Result<Name, InvalidURICharacter>)
        ensures
            has_invalid_char(s@) <==> r is Err,
            r matches Ok(n) ==> n@ == split_steps(s@),
    {
        if contains_invalid_char(s) {
            return Err(InvalidURICharacter);
        }
        let mut steps: Vec<NameStep> = Vec::new();
        push_split_steps(&mut steps, s);
        assert(steps_view(steps@) =~= split_steps(s@));
        Ok(Name(steps))
    }

    /// Extends the name by the steps of `rhs` between its `/`s (see
    /// `join_str`).
    pub fn join_string(self, rhs: String) -> (r: Result<Name, InvalidURICharacter>)
        ensures
            has_invalid_char(rhs@) <==> r is Err,
            r matches Ok(n) ==> n@ == self@ + split_steps(rhs@),
    {
        self.join_str(rhs.as_str())
    }

    /// Extends the name by one step.
    pub fn push_step(self, rhs: NameStep) -> (r: Name)
        ensures
            r@ == self@.push(rhs@),
    {
        let mut steps = self.0;
        steps.push(rhs);
        let r = Name(steps);
        assert(r@ =~= self@.push(rhs@));
        r
    }

    /// Extends the name by the steps of another.
    pub fn join(self, rhs: Name) -> (r: Name)
        ensures
            r@ == self@ + rhs@,
    {
        let mut steps = self.0;
        let mut more = rhs.0;
        steps.append(&mut more);
        let r = Name(steps);
        assert(r@ =~= self@ + rhs@);
        r
    }

    /// A name of the one step `step`.
    pub fn from_step(step: NameStep) -> (r: Name)
        ensures
            r@ == seq![step@],
    {
        let mut steps: Vec<NameStep> = Vec::new();
        steps.push(step);
        let r = Name(steps);
        assert(r@ =~= seq![step@]);
        r
    }

    /// Whether the name has a single step.
    pub fn is_simple(&self) -> (r: bool)
        ensures
            r == (self@.len() == 1),
    {
        self.0.len() == 1
    }

    /// A copy of the name.
    pub fn copy(&self) -> (r: Name)
        ensures
            r@ == self@,
    {
        let mut steps: Vec<NameStep> = Vec::new();
        let mut i: usize = 0;
        while i < self.0.len()
            invariant
                i <= self.0@.len(),
                steps_view(steps@) == self@.take(i as int),
            decreases self.0@.len() - i,
        {
            let ghost prev = steps@;
            let s = self.0[i].0.clone();
            assert(s@ == self@[i as int]);
            steps.push(NameStep(s));
            assert(steps_view(steps@) =~= steps_view(prev).push(s@));
            assert(steps_view(steps@) =~= self@.take(i + 1));
            i = i + 1;
        }
        assert(self@.take(self@.len() as int) =~= self@);
        Name(steps)
    }
}

/// Parsing `a/b` gives the name parsed from `a` extended by the steps of
/// `b`, and `a/b` holds a reserved character exactly when `a` or `b` does.
pub proof fn lemma_parse_slash_is_join(a: Seq<char>, b: Seq<char>)
    ensures
        split_steps(a + seq!['/'] + b) == split_steps(a) + split_steps(b),
        has_invalid_char(a + seq!['/'] + b) == (has_invalid_char(a) || has_invalid_char(b)),
{
    lemma_split_on_concat(a, b, '/');
    let s = a + seq!['/'] + b;
    if has_invalid_char(a) {
        let i = choose|i: int| 0 <= i < a.len() && is_invalid_char(#[trigger] a[i]);
        assert(s[i] == a[i]);
    }
    if has_invalid_char(b) {
        let i = choose|i: int| 0 <= i < b.len() && is_invalid_char(#[trigger] b[i]);
        assert(s[a.len() + 1 + i] == b[i]);
    }
    if has_invalid_char(s) {
        let i = choose|i: int| 0 <= i < s.len() && is_invalid_char(#[trigger] s[i]);
        if i < a.len() {
            assert(a[i] == s[i]);
        } else if i > a.len() {
            assert(b[i - a.len() - 1] == s[i]);
        }
    }
}

impl FromStr for Name {
    type Err = InvalidURICharacter;

    /// See `Name::parse`.
    fn from_str(s: &str) -> (r: Result<Name, InvalidURICharacter>)
        ensures
            has_invalid_char(s@) <==> r is Err,
            r matches Ok(n) ==> n@ == split_steps(s@),
    {
        Name::parse(s)
    }
}

impl<'a> vstd::std_specs::ops::DivSpecImpl<&'a str> for Name {
    open spec fn obeys_div_spec() -> bool {
        false
    }

    open spec fn div_req(self, rhs: &'a str) -> bool {
        true
    }

    open spec fn div_spec(self, rhs: &'a str) -> Result<Name, InvalidURICharacter> {
        arbitrary()
    }
}

impl<'a> Div<&'a str> for Name {
    type Output = Result<Name, InvalidURICharacter>;

    /// See `Name::join_str`.
    fn div(self, rhs: &'a str) -> (r: Self::Output)
        ensures
            has_invalid_char(rhs@) <==> r is Err,
            r matches Ok(n) ==> n@ == self@ + split_steps(rhs@),
    {
        self.join_str(rhs)
    }
}

impl vstd::std_specs::ops::DivSpecImpl<String> for Name {
    open spec fn obeys_div_spec() -> bool {
        false
    }

    open spec fn div_req(self, rhs: String) -> bool {
        true
    }

    open spec fn div_spec(self, rhs: String) -> Result<Name, InvalidURICharacter> {
        arbitrary()
    }
}

impl Div<String> for Name {
    type Output = Result<Name, InvalidURICharacter>;

    /// See `Name::join_string`.
    fn div(self, rhs: String) -> (r: Self::Output)
        ensures
            has_invalid_char(rhs@) <==> r is Err,
            r matches Ok(n) ==> n@ == self@ + split_steps(rhs@),
    {
        self.join_string(rhs)
    }
}

impl vstd::std_specs::ops::DivSpecImpl<NameStep> for Name {
    open spec fn obeys_div_spec() -> bool {
        false
    }

    open spec fn div_req(self, rhs: NameStep) -> bool {
        true
    }

    open spec fn div_spec(self, rhs: NameStep) -> Name {
        arbitrary()
    }
}

impl Div<NameStep> for Name {
    type Output = Name;

    /// See `Name::push_step`.
    fn div(self, rhs: NameStep) -> (r: Self::Output)
        ensures
            r@ == self@.push(rhs@),
    {
        self.push_step(rhs)
    }
}

impl vstd::std_specs::ops::DivSpecImpl<Name> for Name {
    open spec fn obeys_div_spec() -> bool {
        false
    }

    open spec fn div_req(self, rhs: Name) -> bool {
        true
    }

    open spec fn div_spec(self, rhs: Name) -> Name {
        arbitrary()
    }
}

impl Div<Name> for Name {
    type Output = Name;

    /// See `Name::join`.
    fn div(self, rhs: Name) -> (r: Self::Output)
        ensures
            r@ == self@ + rhs@,
    {
        self.join(rhs)
    }
}

} // verus!
