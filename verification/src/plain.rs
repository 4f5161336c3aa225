use crate::colors::{
    blue_text, bold_text, bright_black_text, bright_white_text, fg_text, green_text, italic_text,
    red_text, style_text, yellow_text,
};
use crate::render::{
    context_text, decimal_digits, decimal_text, digit_char, displayable_text, emph_text, entry_text,
    heading_text, indent_text, infix_text, line_text, log_text, logs_text, next_depth, parts_text,
    repeat_text,
    status_text, string_text, task_words, term_result_text, term_text, uri_text, var_entries_text,
    var_entry_text,
};
use crate::trace::{lemma_step_decreases, CheckLog, ComponentVar, Displayable, MessageLevel, Term};
use vstd::string::*;
use vstd::prelude::*;

verus! {

/// The escape character that starts an ANSI escape sequence.
pub open spec fn esc() -> char {
    '\x1b'
}

/// A character that may stand among the parameters of an SGR sequence.
pub open spec fn is_param(c: char) -> bool {
    ('0' <= c && c <= '9') || c == ';'
}

/// The end, after its `m`, of the SGR parameters that start at `i` of `s`,
/// if they end there.
pub open spec fn param_end(s: Seq<char>, i: int) -> Option<int>
    decreases s.len() - i,
{
    if i < 0 || i >= s.len() {
        None
    } else if s[i] == 'm' {
        Some(i + 1)
    } else if is_param(s[i]) {
        param_end(s, i + 1)
    } else {
        None
    }
}

/// The length of the SGR escape sequence `ESC [ parameters m` that `s`
/// starts with, if it starts with one.
pub open spec fn sgr_len(s: Seq<char>) -> Option<int> {
    if s.len() >= 2 && s[0] == esc() && s[1] == '[' {
        param_end(s, 2)
    } else {
        None
    }
}

/// The parameters that end at `param_end` end after `i` and within `s`.
pub proof fn lemma_param_end_bounds(s: Seq<char>, i: int)
    ensures
        param_end(s, i) matches Some(k) ==> i < k <= s.len(),
    decreases s.len() - i,
{
    if 0 <= i < s.len() && s[i] != 'm' && is_param(s[i]) {
        lemma_param_end_bounds(s, i + 1);
    }
}

/// `s` with its SGR escape sequences (the colour and style codes of a
/// terminal) taken out.
pub open spec fn strip_escapes(s: Seq<char>) -> Seq<char>
    decreases s.len(),
{
    if s.len() == 0 {
        Seq::empty()
    } else {
        match sgr_len(s) {
            Some(k) => {
                proof {
                    lemma_param_end_bounds(s, 2);
                }
                if 0 < k <= s.len() {
                    strip_escapes(s.skip(k))
                } else {
                    Seq::empty()
                }
            },
            None => seq![s[0]] + strip_escapes(s.drop_first()),
        }
    }
}

/// No escape character of `s` starts an SGR sequence: `s` holds no
/// complete colour or style code.
pub open spec fn no_codes(s: Seq<char>) -> bool {
    forall|i: int| 0 <= i < s.len() && s[i] == esc() ==> (#[trigger] sgr_len(s.skip(i))) is None
}

/// A piece of a coloured text: a character of the text itself, or an SGR
/// sequence with its parameters.
enum Tok {
    Char(char),
    Code(Seq<char>),
}

spec fn tok_text(t: Tok) -> Seq<char> {
    match t {
        Tok::Char(c) => seq![c],
        Tok::Code(p) => sgr(p),
    }
}

spec fn tok_plain(t: Tok) -> Seq<char> {
    match t {
        Tok::Char(c) => seq![c],
        Tok::Code(_) => Seq::empty(),
    }
}

/// The pieces, written out.
spec fn render(ts: Seq<Tok>) -> Seq<char>
    decreases ts.len(),
{
    if ts.len() == 0 {
        Seq::empty()
    } else {
        tok_text(ts[0]) + render(ts.drop_first())
    }
}

/// The characters among the pieces.
spec fn plain_of(ts: Seq<Tok>) -> Seq<char>
    decreases ts.len(),
{
    if ts.len() == 0 {
        Seq::empty()
    } else {
        tok_plain(ts[0]) + plain_of(ts.drop_first())
    }
}

/// Every SGR sequence among the pieces has parameters only.
spec fn valid(ts: Seq<Tok>) -> bool {
    forall|i: int| 0 <= i < ts.len() && (#[trigger] ts[i]) is Code ==> params(ts[i]->Code_0)
}

/// The coloured text `c` is the text `p` with SGR sequences put in between
/// its characters.
spec fn shows(c: Seq<char>, p: Seq<char>) -> bool {
    exists|ts: Seq<Tok>| #[trigger] valid(ts) && render(ts) == c && plain_of(ts) == p
}

proof fn lemma_render_cat(a: Seq<Tok>, b: Seq<Tok>)
    ensures
        render(a + b) == render(a) + render(b),
        plain_of(a + b) == plain_of(a) + plain_of(b),
    decreases a.len(),
{
    if a.len() == 0 {
        assert(a + b =~= b);
    } else {
        assert((a + b).drop_first() =~= a.drop_first() + b);
        assert((a + b)[0] == a[0]);
        lemma_render_cat(a.drop_first(), b);
        assert(tok_text(a[0]) + (render(a.drop_first()) + render(b)) =~= (tok_text(a[0]) + render(
            a.drop_first(),
        )) + render(b));
        assert(tok_plain(a[0]) + (plain_of(a.drop_first()) + plain_of(b)) =~= (tok_plain(a[0])
            + plain_of(a.drop_first())) + plain_of(b));
    }
}

proof fn lemma_render_one(t: Tok)
    ensures
        render(seq![t]) == tok_text(t),
        plain_of(seq![t]) == tok_plain(t),
{
    assert(seq![t].drop_first() =~= Seq::<Tok>::empty());
    assert(seq![t][0] == t);
    assert(render(Seq::<Tok>::empty()) == Seq::<char>::empty());
    assert(plain_of(Seq::<Tok>::empty()) == Seq::<char>::empty());
    assert(tok_text(t) + Seq::<char>::empty() =~= tok_text(t));
    assert(tok_plain(t) + Seq::<char>::empty() =~= tok_plain(t));
}

spec fn tok_chars(s: Seq<char>) -> Seq<Tok>
    decreases s.len(),
{
    if s.len() == 0 {
        Seq::empty()
    } else {
        cons_letter(s[0], tok_chars(s.drop_first()))
    }
}

spec fn cons_letter(c: char, rest: Seq<Tok>) -> Seq<Tok> {
    seq![Tok::Char(c)] + rest
}

proof fn lemma_letter_cons(c: char, rest: Seq<Tok>)
    ensures
        cons_letter(c, rest).len() == rest.len() + 1,
        cons_letter(c, rest)[0] == Tok::Char(c),
        cons_letter(c, rest).drop_first() == rest,
        render(cons_letter(c, rest)) == seq![c] + render(rest),
        plain_of(cons_letter(c, rest)) == seq![c] + plain_of(rest),
        forall|i: int| 1 <= i < rest.len() + 1 ==> #[trigger] cons_letter(c, rest)[i] == rest[i - 1],
{
    let w = cons_letter(c, rest);
    assert(w.drop_first() =~= rest);
}

proof fn lemma_chars(s: Seq<char>)
    ensures
        valid(tok_chars(s)),
        render(tok_chars(s)) == s,
        plain_of(tok_chars(s)) == s,
    decreases s.len(),
{
    if s.len() > 0 {
        let cs = tok_chars(s);
        let rest = tok_chars(s.drop_first());
        lemma_chars(s.drop_first());
        lemma_letter_cons(s[0], rest);
        assert(cs == cons_letter(s[0], rest));
        assert forall|i: int| 0 <= i < cs.len() && (#[trigger] cs[i]) is Code implies params(cs[i]->Code_0) by {
            if i == 0 {
                assert(cs[0] is Char);
            } else {
                assert(cs[i] == rest[i - 1]);
            }
        }
        assert(seq![s[0]] + s.drop_first() =~= s);
    } else {
        assert(s =~= Seq::<char>::empty());
    }
}

/// Texts that show `p1` and `p2` one after the other show `p1 + p2`.
proof fn lemma_shows_cat(c1: Seq<char>, p1: Seq<char>, c2: Seq<char>, p2: Seq<char>)
    requires
        shows(c1, p1),
        shows(c2, p2),
    ensures
        shows(c1 + c2, p1 + p2),
{
    let t1 = choose|ts: Seq<Tok>| #[trigger] valid(ts) && render(ts) == c1 && plain_of(ts) == p1;
    let t2 = choose|ts: Seq<Tok>| #[trigger] valid(ts) && render(ts) == c2 && plain_of(ts) == p2;
    lemma_render_cat(t1, t2);
    let w = t1 + t2;
    assert forall|i: int| 0 <= i < w.len() && (#[trigger] w[i]) is Code implies params(w[i]->Code_0) by {
        if i < t1.len() {
            assert(w[i] == t1[i]);
        } else {
            assert(w[i] == t2[i - t1.len()]);
        }
    }
    assert(valid(w));
}

/// Any text shows itself.
proof fn lemma_shows_plain(s: Seq<char>)
    ensures
        shows(s, s),
{
    lemma_chars(s);
    assert(valid(tok_chars(s)));
}

/// The parameters of an SGR sequence.
pub open spec fn params(code: Seq<char>) -> bool {
    forall|i: int| 0 <= i < code.len() ==> is_param(#[trigger] code[i])
}

proof fn lemma_param_run(code: Seq<char>, rest: Seq<char>, i: int)
    requires
        params(code),
        0 <= i <= code.len(),
    ensures
        param_end(code + "m"@ + rest, i) == Some((code.len() + 1) as int),
    decreases code.len() - i,
{
    reveal_strlit("m");
    let s = code + "m"@ + rest;
    if i < code.len() {
        assert(s[i] == code[i]);
        assert(is_param(code[i]));
        lemma_param_run(code, rest, i + 1);
    } else {
        assert(s[i] == 'm');
    }
}

/// The SGR sequence with parameters `code`.
pub open spec fn sgr(code: Seq<char>) -> Seq<char> {
    "\x1b["@ + code + "m"@
}

proof fn lemma_sgr_prefix(code: Seq<char>, rest: Seq<char>)
    requires
        params(code),
    ensures
        sgr_len(sgr(code) + rest) == Some(sgr(code).len() as int),
        strip_escapes(sgr(code) + rest) == strip_escapes(rest),
        sgr(code).len() > 0,
        sgr(code)[0] == esc(),
{
    reveal_strlit("\x1b[");
    reveal_strlit("m");
    let s = sgr(code) + rest;
    let inner = code + "m"@ + rest;
    assert(s =~= seq![esc(), '['] + inner);
    lemma_param_run(code, rest, 0);
    lemma_param_end_shift(inner, 0);
    assert(sgr_len(s) == Some((code.len() + 3) as int));
    assert(s.skip(code.len() + 3 as int) =~= rest);
    lemma_param_end_bounds(s, 2);
}

proof fn lemma_param_end_shift(s: Seq<char>, j: int)
    requires
        0 <= j,
    ensures
        match param_end(s, j) {
            Some(k) => param_end(seq![esc(), '['] + s, j + 2) == Some(k + 2),
            None => param_end(seq![esc(), '['] + s, j + 2) is None,
        },
    decreases s.len() - j,
{
    let t = seq![esc(), '['] + s;
    if j < s.len() {
        assert(t[j + 2] == s[j]);
        lemma_param_end_shift(s, j + 1);
    }
}

/// A text wrapped in an SGR sequence and a reset shows what the text shows.
proof fn lemma_shows_wrapped(code: Seq<char>, reset: Seq<char>, c: Seq<char>, p: Seq<char>)
    requires
        params(code),
        params(reset),
        shows(c, p),
    ensures
        shows(sgr(code) + c + sgr(reset), p),
{
    let t = choose|ts: Seq<Tok>| #[trigger] valid(ts) && render(ts) == c && plain_of(ts) == p;
    let a = seq![Tok::Code(code)];
    let z = seq![Tok::Code(reset)];
    lemma_render_one(Tok::Code(code));
    lemma_render_one(Tok::Code(reset));
    lemma_render_cat(a, t);
    lemma_render_cat(a + t, z);
    let w = a + t + z;
    assert(Seq::<char>::empty() + p + Seq::<char>::empty() =~= p);
    assert forall|i: int| 0 <= i < w.len() && (#[trigger] w[i]) is Code implies params(w[i]->Code_0) by {
        if i == 0 {
            assert(w[i] == Tok::Code(code));
        } else if i < 1 + t.len() {
            assert(w[i] == t[i - 1]);
        } else {
            assert(w[i] == Tok::Code(reset));
        }
    }
    assert(valid(w));
}

proof fn lemma_fg(code: Seq<char>, c: Seq<char>, p: Seq<char>)
    requires
        params(code),
        shows(c, p),
    ensures
        shows(fg_text(code, c), p),
{
    reveal_strlit("\x1b[");
    reveal_strlit("m");
    reveal_strlit("\x1b[39m");
    reveal_strlit("39");
    assert(params("39"@));
    assert(fg_text(code, c) =~= sgr(code) + c + sgr("39"@));
    lemma_shows_wrapped(code, "39"@, c, p);
}

proof fn lemma_style(code: Seq<char>, c: Seq<char>, p: Seq<char>)
    requires
        params(code),
        shows(c, p),
    ensures
        shows(style_text(code, c), p),
{
    reveal_strlit("\x1b[");
    reveal_strlit("m");
    reveal_strlit("\x1b[0m");
    reveal_strlit("0");
    assert(params("0"@));
    assert(style_text(code, c) =~= sgr(code) + c + sgr("0"@));
    lemma_shows_wrapped(code, "0"@, c, p);
}

proof fn lemma_colors(c: Seq<char>, p: Seq<char>)
    requires
        shows(c, p),
    ensures
        shows(green_text(c), p),
        shows(red_text(c), p),
        shows(yellow_text(c), p),
        shows(blue_text(c), p),
        shows(bright_black_text(c), p),
        shows(bright_white_text(c), p),
        shows(bold_text(c), p),
        shows(italic_text(c), p),
{
    reveal_strlit("32");
    reveal_strlit("31");
    reveal_strlit("33");
    reveal_strlit("34");
    reveal_strlit("90");
    reveal_strlit("97");
    reveal_strlit("1");
    reveal_strlit("3");
    assert(params("32"@) && params("31"@) && params("33"@) && params("34"@));
    assert(params("90"@) && params("97"@) && params("1"@) && params("3"@));
    lemma_fg("32"@, c, p);
    lemma_fg("31"@, c, p);
    lemma_fg("33"@, c, p);
    lemma_fg("34"@, c, p);
    lemma_fg("90"@, c, p);
    lemma_fg("97"@, c, p);
    lemma_style("1"@, c, p);
    lemma_style("3"@, c, p);
}

proof fn lemma_lit(s: Seq<char>)
    ensures
        shows(s, s),
        shows(green_text(s), s),
        shows(red_text(s), s),
        shows(yellow_text(s), s),
        shows(blue_text(s), s),
        shows(bright_black_text(s), s),
        shows(bright_white_text(s), s),
        shows(bold_text(s), s),
        shows(italic_text(s), s),
{
    lemma_shows_plain(s);
    lemma_colors(s, s);
}

proof fn lemma_plain_cat(c1: Seq<char>, p1: Seq<char>, s: Seq<char>)
    requires
        shows(c1, p1),
    ensures
        shows(c1 + s, p1 + s),
        shows(s + c1, s + p1),
{
    lemma_shows_plain(s);
    lemma_shows_cat(c1, p1, s, s);
    lemma_shows_cat(s, s, c1, p1);
}

proof fn lemma_emph(s: Seq<char>)
    ensures
        shows(emph_text(true, s), emph_text(false, s)),
        shows(heading_text(true, s), heading_text(false, s)),
        shows(infix_text(true, s), infix_text(false, s)),
{
    lemma_lit(s);
    lemma_colors(bright_white_text(s), s);
    lemma_plain_cat(emph_text(true, s), s, " "@);
    lemma_plain_cat(" "@ + emph_text(true, s), " "@ + s, " "@);
    lemma_plain_cat(emph_text(true, s), s, " "@);
}

proof fn lemma_term(t: Term)
    ensures
        shows(term_text(true, t), term_text(false, t)),
{
    lemma_lit(t.short@);
}

proof fn lemma_string(s: Seq<char>, lvl: Option<MessageLevel>)
    ensures
        shows(string_text(true, s, lvl), string_text(false, s, lvl)),
{
    reveal_strlit("[FAILED]");
    reveal_strlit("[FAILED] ");
    reveal_strlit(" ");
    lemma_lit(s);
    lemma_lit("[FAILED]"@);
    lemma_plain_cat(red_text("[FAILED]"@), "[FAILED]"@, " "@);
    lemma_shows_cat(red_text("[FAILED]"@) + " "@, "[FAILED]"@ + " "@, red_text(s), s);
    assert("[FAILED]"@ + " "@ + s =~= "[FAILED] "@ + s);
}

proof fn lemma_displayable(d: Displayable, lvl: Option<MessageLevel>)
    ensures
        shows(displayable_text(true, d, lvl), displayable_text(false, d, lvl)),
{
    match d {
        Displayable::Num(n) => {
            lemma_shows_plain(decimal_text(n as int));
        },
        Displayable::String(x) => lemma_string(x@, lvl),
        Displayable::Term(t) => lemma_term(t),
        Displayable::Uri(u) => lemma_shows_plain(uri_text(u)),
        Displayable::Var(v) => lemma_shows_plain(v.name@),
    }
}

proof fn lemma_parts(p: Seq<Displayable>, lvl: Option<MessageLevel>)
    ensures
        shows(parts_text(true, p, lvl), parts_text(false, p, lvl)),
    decreases p.len(),
{
    if p.len() == 0 {
        lemma_shows_plain(Seq::empty());
    } else {
        lemma_parts(p.drop_last(), lvl);
        lemma_displayable(p.last(), lvl);
        lemma_shows_cat(
            parts_text(true, p.drop_last(), lvl),
            parts_text(false, p.drop_last(), lvl),
            displayable_text(true, p.last(), lvl),
            displayable_text(false, p.last(), lvl),
        );
    }
}

proof fn lemma_line(depth: nat)
    ensures
        shows(line_text(true, depth), line_text(false, depth)),
{
    let i = indent_text(depth);
    lemma_lit(i);
    lemma_plain_cat(blue_text(i), i, "\n"@);
    lemma_plain_cat("\n"@ + blue_text(i), "\n"@ + i, " "@);
}

proof fn lemma_status(ok: bool)
    ensures
        shows(status_text(true, ok), status_text(false, ok)),
{
    reveal_strlit("[FAILED]");
    reveal_strlit("[FAILED] ");
    reveal_strlit("[SUCCESS]");
    reveal_strlit("[SUCCESS] ");
    reveal_strlit(" ");
    lemma_lit("[FAILED]"@);
    lemma_lit("[SUCCESS]"@);
    lemma_plain_cat(red_text("[FAILED]"@), "[FAILED]"@, " "@);
    lemma_plain_cat(green_text("[SUCCESS]"@), "[SUCCESS]"@, " "@);
    assert("[FAILED]"@ + " "@ =~= "[FAILED] "@);
    assert("[SUCCESS]"@ + " "@ =~= "[SUCCESS] "@);
}

proof fn lemma_opt_term(prefix: Seq<char>, t: Option<Term>)
    ensures
        shows(
            match t {
                Some(x) => prefix + term_text(true, x),
                None => Seq::empty(),
            },
            match t {
                Some(x) => prefix + term_text(false, x),
                None => Seq::empty(),
            },
        ),
{
    match t {
        Some(x) => {
            lemma_term(x);
            lemma_plain_cat(term_text(true, x), term_text(false, x), prefix);
        },
        None => lemma_shows_plain(Seq::empty()),
    }
}

proof fn lemma_var_entry(v: ComponentVar)
    ensures
        shows(var_entry_text(true, v), var_entry_text(false, v)),
{
    lemma_opt_term(" : "@, v.tp);
    lemma_opt_term(" : "@, v.df);
    let tc = match v.tp {
        Some(x) => " : "@ + term_text(true, x),
        None => Seq::empty(),
    };
    let tp = match v.tp {
        Some(x) => " : "@ + term_text(false, x),
        None => Seq::empty(),
    };
    let dc = match v.df {
        Some(x) => " : "@ + term_text(true, x),
        None => Seq::empty(),
    };
    let dp = match v.df {
        Some(x) => " : "@ + term_text(false, x),
        None => Seq::empty(),
    };
    lemma_plain_cat(tc, tp, v.var.name@);
    lemma_shows_cat(v.var.name@ + tc, v.var.name@ + tp, dc, dp);
}

proof fn lemma_var_entries(c: Seq<ComponentVar>)
    ensures
        shows(var_entries_text(true, c), var_entries_text(false, c)),
    decreases c.len(),
{
    if c.len() == 0 {
        lemma_shows_plain(Seq::empty());
    } else if c.len() == 1 {
        lemma_var_entry(c[0]);
    } else {
        lemma_var_entries(c.drop_last());
        lemma_var_entry(c.last());
        lemma_plain_cat(var_entries_text(true, c.drop_last()), var_entries_text(false, c.drop_last()), ", "@);
        lemma_shows_cat(
            var_entries_text(true, c.drop_last()) + ", "@,
            var_entries_text(false, c.drop_last()) + ", "@,
            var_entry_text(true, c.last()),
            var_entry_text(false, c.last()),
        );
    }
}

proof fn lemma_context(c: Seq<ComponentVar>)
    ensures
        shows(context_text(true, c), context_text(false, c)),
{
    if c.len() == 0 {
        lemma_shows_plain(Seq::empty());
    } else {
        lemma_var_entries(c);
        lemma_plain_cat(var_entries_text(true, c), var_entries_text(false, c), "{... "@);
        lemma_plain_cat("{... "@ + var_entries_text(true, c), "{... "@ + var_entries_text(false, c), " } "@);
    }
}

proof fn lemma_term_result(r: Option<Term>)
    ensures
        shows(term_result_text(true, r), term_result_text(false, r)),
{
    match r {
        Some(t) => {
            lemma_string(": "@, None);
            lemma_term(t);
            lemma_shows_cat(string_text(true, ": "@, None), string_text(false, ": "@, None), term_text(true, t), term_text(false, t));
        },
        None => lemma_shows_plain(Seq::empty()),
    }
}

proof fn lemma_task_head(h: Seq<char>, ctx: Seq<ComponentVar>)
    ensures
        shows(
            heading_text(true, h) + context_text(true, ctx),
            heading_text(false, h) + context_text(false, ctx),
        ),
{
    lemma_emph(h);
    lemma_context(ctx);
    lemma_shows_cat(heading_text(true, h), heading_text(false, h), context_text(true, ctx), context_text(false, ctx));
}

proof fn lemma_relation(
    h: Seq<char>,
    ctx: Seq<ComponentVar>,
    turnstile: Seq<char>,
    a: Term,
    op: Seq<char>,
    b: Term,
)
    ensures
        shows(
            heading_text(true, h) + context_text(true, ctx) + heading_text(true, turnstile) + term_text(
                true,
                a,
            ) + infix_text(true, op) + term_text(true, b),
            heading_text(false, h) + context_text(false, ctx) + heading_text(false, turnstile)
                + term_text(false, a) + infix_text(false, op) + term_text(false, b),
        ),
{
    lemma_task_head(h, ctx);
    lemma_emph(turnstile);
    lemma_emph(op);
    lemma_term(a);
    lemma_term(b);
    let c1 = heading_text(true, h) + context_text(true, ctx);
    let p1 = heading_text(false, h) + context_text(false, ctx);
    lemma_shows_cat(c1, p1, heading_text(true, turnstile), heading_text(false, turnstile));
    let c2 = c1 + heading_text(true, turnstile);
    let p2 = p1 + heading_text(false, turnstile);
    lemma_shows_cat(c2, p2, term_text(true, a), term_text(false, a));
    let c3 = c2 + term_text(true, a);
    let p3 = p2 + term_text(false, a);
    lemma_shows_cat(c3, p3, infix_text(true, op), infix_text(false, op));
    lemma_shows_cat(c3 + infix_text(true, op), p3 + infix_text(false, op), term_text(true, b), term_text(false, b));
}

proof fn lemma_judgement(h: Seq<char>, ctx: Seq<ComponentVar>, turnstile: Seq<char>, t: Term)
    ensures
        shows(
            heading_text(true, h) + context_text(true, ctx) + heading_text(true, turnstile) + term_text(true, t),
            heading_text(false, h) + context_text(false, ctx) + heading_text(false, turnstile) + term_text(false, t),
        ),
{
    lemma_task_head(h, ctx);
    lemma_emph(turnstile);
    lemma_term(t);
    let c1 = heading_text(true, h) + context_text(true, ctx);
    let p1 = heading_text(false, h) + context_text(false, ctx);
    lemma_shows_cat(c1, p1, heading_text(true, turnstile), heading_text(false, turnstile));
    lemma_shows_cat(
        c1 + heading_text(true, turnstile),
        p1 + heading_text(false, turnstile),
        term_text(true, t),
        term_text(false, t),
    );
}

proof fn lemma_plain_task(h: Seq<char>, ctx: Seq<ComponentVar>, t: Term)
    ensures
        shows(
            heading_text(true, h) + context_text(true, ctx) + term_text(true, t),
            heading_text(false, h) + context_text(false, ctx) + term_text(false, t),
        ),
{
    lemma_task_head(h, ctx);
    lemma_term(t);
    lemma_shows_cat(
        heading_text(true, h) + context_text(true, ctx),
        heading_text(false, h) + context_text(false, ctx),
        term_text(true, t),
        term_text(false, t),
    );
}

proof fn lemma_task_words(log: CheckLog)
    ensures
        shows(task_words(true, log), task_words(false, log)),
{
    match log {
        CheckLog::Simplify { term, context, .. } => lemma_plain_task("Simplifying"@, context@, term),
        CheckLog::Proving { term, context, .. } => lemma_plain_task("Proving"@, context@, term),
        CheckLog::Inference { term, context, .. } => lemma_plain_task("Inferring type of"@, context@, term),
        CheckLog::VariableInference { var, context, .. } => {
            lemma_task_head("Inferring type of variable"@, context@);
            lemma_plain_cat(
                heading_text(true, "Inferring type of variable"@) + context_text(true, context@),
                heading_text(false, "Inferring type of variable"@) + context_text(false, context@),
                var@,
            );
        },
        CheckLog::Inhabitable { term, context, .. } => lemma_judgement(
            "Checking inhabitability"@,
            context@,
            "⊢ INH"@,
            term,
        ),
        CheckLog::Universe { term, context, .. } => lemma_judgement(
            "Checking universe"@,
            context@,
            "⊢ UNIV"@,
            term,
        ),
        CheckLog::Subtype { sub, sup, context, .. } => lemma_relation(
            "Checking subtyping"@,
            context@,
            "⊢"@,
            sub,
            "<:"@,
            sup,
        ),
        CheckLog::HasType { tm, tp, context, .. } => lemma_relation(
            "Checking typing"@,
            context@,
            "⊢"@,
            tm,
            ":"@,
            tp,
        ),
        CheckLog::Equality { lhs, rhs, context, .. } => lemma_relation(
            "Checking equality"@,
            context@,
            "⊢"@,
            lhs,
            "=="@,
            rhs,
        ),
        _ => lemma_shows_plain(Seq::empty()),
    }
}

proof fn lemma_entry(log: CheckLog)
    ensures
        shows(entry_text(true, log), entry_text(false, log)),
{
    match log {
        CheckLog::Strategy { name, .. } => {
            lemma_lit(name@);
            lemma_plain_cat(italic_text(name@), name@, "Strategy: "@);
        },
        CheckLog::Rule { header, .. } => lemma_parts(header@, None),
        CheckLog::Comment(p) => lemma_parts(p@, Some(MessageLevel::Comment)),
        CheckLog::Emph(p) => lemma_parts(p@, Some(MessageLevel::Emph)),
        CheckLog::Header(p) => lemma_parts(p@, Some(MessageLevel::Header)),
        CheckLog::Fail(p) => lemma_parts(p@, Some(MessageLevel::Failure)),
        _ => {
            let ok = match log {
                CheckLog::Simplify { result, .. } => result is Some,
                CheckLog::Proving { result, .. } => result is Some,
                CheckLog::Inference { result, .. } => result is Some,
                CheckLog::VariableInference { result, .. } => result is Some,
                CheckLog::Inhabitable { result, .. } => result is Some,
                CheckLog::Universe { result, .. } => result is Some,
                CheckLog::Subtype { result, .. } => result is Some,
                CheckLog::HasType { result, .. } => result is Some,
                CheckLog::Equality { result, .. } => result is Some,
                _ => false,
            };
            lemma_status(ok);
            lemma_task_words(log);
            lemma_shows_cat(status_text(true, ok), status_text(false, ok), task_words(true, log), task_words(false, log));
            let r: Option<Term> = match log {
                CheckLog::Simplify { result, .. } => result,
                CheckLog::Proving { result, .. } => result,
                CheckLog::Inference { result, .. } => result,
                CheckLog::VariableInference { result, .. } => result,
                _ => None,
            };
            lemma_term_result(r);
            lemma_shows_cat(
                status_text(true, ok) + task_words(true, log),
                status_text(false, ok) + task_words(false, log),
                term_result_text(true, r),
                term_result_text(false, r),
            );
        },
    }
}

proof fn lemma_log(log: CheckLog, depth: nat)
    ensures
        shows(log_text(true, log, depth), log_text(false, log, depth)),
    decreases log,
{
    lemma_line(depth);
    lemma_entry(log);
    lemma_shows_cat(line_text(true, depth), line_text(false, depth), entry_text(true, log), entry_text(false, log));
    let c1 = line_text(true, depth) + entry_text(true, log);
    let p1 = line_text(false, depth) + entry_text(false, log);
    if log.has_steps() {
        let st = log.steps();
        lemma_logs(log, st, next_depth(depth));
        lemma_shows_cat(c1, p1, logs_text(true, st, next_depth(depth)), logs_text(false, st, next_depth(depth)));
    } else {
        lemma_shows_plain(Seq::empty());
        lemma_shows_cat(c1, p1, Seq::empty(), Seq::empty());
        assert(c1 + Seq::<char>::empty() =~= c1);
        assert(p1 + Seq::<char>::empty() =~= p1);
    }
}

proof fn lemma_logs(whole: CheckLog, logs: Seq<CheckLog>, depth: nat)
    requires
        logs.len() <= whole.steps().len(),
        forall|i: int| 0 <= i < logs.len() ==> logs[i] == #[trigger] whole.steps()[i],
    ensures
        shows(logs_text(true, logs, depth), logs_text(false, logs, depth)),
    decreases whole, logs.len(),
{
    if logs.len() == 0 {
        lemma_shows_plain(Seq::empty());
    } else {
        let k = logs.len() - 1;
        let rest = logs.subrange(0, k);
        lemma_logs(whole, rest, depth);
        lemma_step_decreases(whole, k);
        assert(logs[k] == whole.steps()[k]);
        lemma_log(logs[k], depth);
        lemma_shows_cat(logs_text(true, rest, depth), logs_text(false, rest, depth), log_text(true, logs[k], depth), log_text(false, logs[k], depth));
    }
}

proof fn lemma_param_end_cons(c: char, s: Seq<char>, j: int)
    requires
        0 <= j,
    ensures
        match param_end(s, j) {
            Some(k) => param_end(seq![c] + s, j + 1) == Some(k + 1),
            None => param_end(seq![c] + s, j + 1) is None,
        },
    decreases s.len() - j,
{
    let t = seq![c] + s;
    if j < s.len() {
        assert(t[j + 1] == s[j]);
        lemma_param_end_cons(c, s, j + 1);
    }
}

/// Pieces that start with a code are written out starting with an escape.
proof fn lemma_render_code_head(ts: Seq<Tok>)
    requires
        valid(ts),
        ts.len() > 0,
        ts[0] is Code,
    ensures
        render(ts).len() > 0,
        render(ts)[0] == esc(),
{
    let p = ts[0]->Code_0;
    lemma_sgr_prefix(p, render(ts.drop_first()));
}

/// Parameters that run to an `m` at the start of pieces that start with a
/// character run the same way at the start of those characters.
proof fn lemma_run_plain(ts: Seq<Tok>)
    requires
        valid(ts),
        ts.len() == 0 || ts[0] is Char,
        param_end(render(ts), 0) is Some,
    ensures
        param_end(plain_of(ts), 0) == param_end(render(ts), 0),
    decreases ts.len(),
{
    if ts.len() > 0 {
        let c = ts[0]->Char_0;
        let tail = ts.drop_first();
        let r = render(tail);
        let q = plain_of(tail);
        assert(render(ts) == seq![c] + r);
        assert(plain_of(ts) == seq![c] + q);
        assert((seq![c] + r)[0] == c);
        assert((seq![c] + q)[0] == c);
        if c != 'm' {
            assert(is_param(c));
            lemma_param_end_cons(c, r, 0);
            lemma_param_end_cons(c, q, 0);
            assert(param_end(r, 0) is Some);
            if tail.len() > 0 && tail[0] is Code {
                assert(valid(tail)) by {
                    assert forall|i: int| 0 <= i < tail.len() && (#[trigger] tail[i]) is Code implies params(tail[i]->Code_0) by {
                        assert(tail[i] == ts[i + 1]);
                    }
                }
                lemma_render_code_head(tail);
                assert(false);
            }
            assert(valid(tail)) by {
                assert forall|i: int| 0 <= i < tail.len() && (#[trigger] tail[i]) is Code implies params(tail[i]->Code_0) by {
                    assert(tail[i] == ts[i + 1]);
                }
            }
            lemma_run_plain(tail);
        }
    }
}

proof fn lemma_no_codes_tail(c: char, q: Seq<char>)
    requires
        no_codes(seq![c] + q),
    ensures
        no_codes(q),
{
    let t = seq![c] + q;
    assert forall|i: int| 0 <= i < q.len() && q[i] == esc() implies (#[trigger] sgr_len(q.skip(i))) is None by {
        assert(t[i + 1] == q[i]);
        assert(t.skip(i + 1) =~= q.skip(i));
    }
}

proof fn lemma_valid_tail(ts: Seq<Tok>)
    requires
        valid(ts),
        ts.len() > 0,
    ensures
        valid(ts.drop_first()),
{
    let tail = ts.drop_first();
    assert forall|i: int| 0 <= i < tail.len() && (#[trigger] tail[i]) is Code implies params(tail[i]->Code_0) by {
        assert(tail[i] == ts[i + 1]);
    }
}

/// Taking the escape sequences out of pieces written out leaves their
/// characters, when those hold no complete code of their own.
proof fn lemma_strip_render(ts: Seq<Tok>)
    requires
        valid(ts),
        no_codes(plain_of(ts)),
    ensures
        strip_escapes(render(ts)) == plain_of(ts),
    decreases ts.len(),
{
    if ts.len() > 0 {
        let tail = ts.drop_first();
        lemma_valid_tail(ts);
        let r = render(tail);
        let q = plain_of(tail);
        match ts[0] {
            Tok::Code(p) => {
                assert(params(p));
                lemma_sgr_prefix(p, r);
                assert(plain_of(ts) =~= q);
                lemma_strip_render(tail);
            },
            Tok::Char(c) => {
                assert(render(ts) == seq![c] + r);
                assert(plain_of(ts) == seq![c] + q);
                lemma_no_codes_tail(c, q);
                lemma_strip_render(tail);
                let w = seq![c] + r;
                if c == esc() && sgr_len(w) is Some {
                    assert(w[1] == r[0]);
                    if tail[0] is Code {
                        lemma_render_code_head(tail);
                        assert(false);
                    }
                    let d = tail[0]->Char_0;
                    let t2 = tail.drop_first();
                    lemma_valid_tail(tail);
                    let r2 = render(t2);
                    let q2 = plain_of(t2);
                    assert(r == seq![d] + r2);
                    assert(q == seq![d] + q2);
                    assert((seq![d] + r2)[0] == d);
                    assert(d == '[');
                    assert(w =~= seq![esc(), '['] + r2);
                    lemma_param_end_shift(r2, 0);
                    assert(param_end(r2, 0) is Some);
                    if t2.len() > 0 && t2[0] is Code {
                        lemma_render_code_head(t2);
                        assert(false);
                    }
                    lemma_run_plain(t2);
                    let pl = plain_of(ts);
                    assert(pl =~= seq![esc(), '['] + q2);
                    lemma_param_end_shift(q2, 0);
                    assert(pl.skip(0) =~= pl);
                    assert(pl[0] == esc());
                    assert(sgr_len(pl.skip(0)) is Some);
                    assert(false);
                }
                assert(sgr_len(w) is None);
                assert(w.drop_first() =~= r);
                assert(strip_escapes(w) == seq![c] + strip_escapes(w.drop_first()));
            },
        }
    }
}

/// The coloured rendering of a log, with its colour and style codes taken
/// out, is its plain rendering: the two differ only in those codes. This
/// holds where the plain rendering holds no complete colour or style code
/// of its own.
pub proof fn lemma_colored_is_plain(log: CheckLog, depth: nat)
    requires
        no_codes(log_text(false, log, depth)),
    ensures
        strip_escapes(log_text(true, log, depth)) == log_text(false, log, depth),
{
    lemma_log(log, depth);
    let ts = choose|ts: Seq<Tok>|
        #[trigger] valid(ts) && render(ts) == log_text(true, log, depth) && plain_of(ts) == log_text(
            false,
            log,
            depth,
        );
    lemma_strip_render(ts);
}

} // verus!
