use crate::colors::{
    blue_text, bold_text, bright_black_text, bright_white_text, green_text, italic_text, red_text,
    yellow_text,
};
use crate::trace::{CheckLog, ComponentVar, Displayable, MessageLevel, Term, Uri};
use crate::colors::{blue, bold, bright_black, bright_white, green, italic, red, yellow};
use crate::trace::lemma_step_decreases;
use vstd::prelude::*;
use vstd::string::*;

verus! {

// The text of a check log as a trace displayer writes it. With `colored`
// false this is the plain displayer; with `colored` true the ANSI-coloured
// one. Both write the same words; the coloured one paints some of them.

/// A key word of a task line: bold bright white when coloured.
pub open spec fn emph_text(colored: bool, s: Seq<char>) -> Seq<char> {
    if colored {
        bold_text(bright_white_text(s))
    } else {
        s
    }
}

/// A key word followed by a space.
pub open spec fn heading_text(colored: bool, s: Seq<char>) -> Seq<char> {
    emph_text(colored, s) + " "@
}

/// A key word between two spaces.
pub open spec fn infix_text(colored: bool, s: Seq<char>) -> Seq<char> {
    " "@ + emph_text(colored, s) + " "@
}

/// `s`, `n` times.
pub open spec fn repeat_text(s: Seq<char>, n: nat) -> Seq<char>
    decreases n,
{
    if n == 0 {
        Seq::empty()
    } else {
        repeat_text(s, (n - 1) as nat) + s
    }
}

/// The tree drawing in front of a line at depth `n`: nothing at the top,
/// else a bar for each enclosing level and a branch for this one.
pub open spec fn indent_text(n: nat) -> Seq<char> {
    if n == 0 {
        Seq::empty()
    } else {
        repeat_text("  │"@, (n - 1) as nat) + "  ├─"@
    }
}

/// The decimal digit of `d`, for `d < 10`.
pub open spec fn digit_char(d: nat) -> char {
    ((d + 48) as u8) as char
}

/// The decimal digits of `n`, most significant first.
pub open spec fn decimal_digits(n: nat) -> Seq<char>
    decreases n,
{
    if n < 10 {
        seq![digit_char(n)]
    } else {
        decimal_digits(n / 10) + seq![digit_char(n % 10)]
    }
}

/// `n` in decimal, with a leading `-` when negative.
pub open spec fn decimal_text(n: int) -> Seq<char> {
    if n < 0 {
        "-"@ + decimal_digits((-n) as nat)
    } else {
        decimal_digits(n as nat)
    }
}

/// A term: its short rendering, yellow when coloured.
pub open spec fn term_text(colored: bool, t: Term) -> Seq<char> {
    if colored {
        yellow_text(t.short@)
    } else {
        t.short@
    }
}

/// A URI: a symbol as `module?name`, anything else by its full text.
pub open spec fn uri_text(u: Uri) -> Seq<char> {
    match u {
        Uri::Symbol { module_name, name } => module_name@ + "?"@ + name@,
        Uri::Other(s) => s@,
    }
}

/// A piece of text at a message level: a failure is marked as such; when
/// coloured a failure is red and anything else bright black.
pub open spec fn string_text(colored: bool, s: Seq<char>, lvl: Option<MessageLevel>) -> Seq<char> {
    if colored {
        if lvl == Some(MessageLevel::Failure) {
            red_text("[FAILED]"@) + " "@ + red_text(s)
        } else {
            bright_black_text(s)
        }
    } else if lvl == Some(MessageLevel::Failure) {
        "[FAILED] "@ + s
    } else {
        s
    }
}

/// One piece of a message.
pub open spec fn displayable_text(colored: bool, d: Displayable, lvl: Option<MessageLevel>) -> Seq<
    char,
> {
    match d {
        Displayable::Num(n) => decimal_text(n as int),
        Displayable::String(s) => string_text(colored, s@, lvl),
        Displayable::Term(t) => term_text(colored, t),
        Displayable::Uri(u) => uri_text(u),
        Displayable::Var(v) => v.name@,
    }
}

/// The pieces of a message, one after the other.
pub open spec fn parts_text(colored: bool, parts: Seq<Displayable>, lvl: Option<MessageLevel>) -> Seq<
    char,
>
    decreases parts.len(),
{
    if parts.len() == 0 {
        Seq::empty()
    } else {
        parts_text(colored, parts.drop_last(), lvl) + displayable_text(
            colored,
            parts.last(),
            lvl,
        )
    }
}

/// The start of a line at depth `depth`: a line break and the tree drawing
/// (blue when coloured), then a space.
pub open spec fn line_text(colored: bool, depth: nat) -> Seq<char> {
    "\n"@ + (if colored {
        blue_text(indent_text(depth))
    } else {
        indent_text(depth)
    }) + " "@
}

/// Whether a task succeeded, as the task line opens with it.
pub open spec fn status_text(colored: bool, ok: bool) -> Seq<char> {
    if colored {
        (if ok {
            green_text("[SUCCESS]"@)
        } else {
            red_text("[FAILED]"@)
        }) + " "@
    } else if ok {
        "[SUCCESS] "@
    } else {
        "[FAILED] "@
    }
}

/// A context variable: its name, then its type and its definiens where
/// there are any.
pub open spec fn var_entry_text(colored: bool, v: ComponentVar) -> Seq<char> {
    v.var.name@ + (match v.tp {
        Some(t) => " : "@ + term_text(colored, t),
        None => Seq::empty(),
    }) + (match v.df {
        Some(t) => " : "@ + term_text(colored, t),
        None => Seq::empty(),
    })
}

/// The context variables, separated by commas.
pub open spec fn var_entries_text(colored: bool, ctx: Seq<ComponentVar>) -> Seq<char>
    decreases ctx.len(),
{
    if ctx.len() == 0 {
        Seq::empty()
    } else if ctx.len() == 1 {
        var_entry_text(colored, ctx[0])
    } else {
        var_entries_text(colored, ctx.drop_last()) + ", "@ + var_entry_text(colored, ctx.last())
    }
}

/// The context of a task: nothing when empty, else its variables in braces.
pub open spec fn context_text(colored: bool, ctx: Seq<ComponentVar>) -> Seq<char> {
    if ctx.len() == 0 {
        Seq::empty()
    } else {
        "{... "@ + var_entries_text(colored, ctx) + " } "@
    }
}

/// What a term-valued task came out with, after its line.
pub open spec fn term_result_text(colored: bool, result: Option<Term>) -> Seq<char> {
    match result {
        Some(t) => string_text(colored, ": "@, None) + term_text(colored, t),
        None => Seq::empty(),
    }
}

/// The words of a task line: what was attempted, in which context, on what.
pub open spec fn task_words(colored: bool, log: CheckLog) -> Seq<char> {
    match log {
        CheckLog::Simplify { term, context, .. } => heading_text(colored, "Simplifying"@)
            + context_text(colored, context@) + term_text(colored, term),
        CheckLog::Proving { term, context, .. } => heading_text(colored, "Proving"@) + context_text(
            colored,
            context@,
        ) + term_text(colored, term),
        CheckLog::Inference { term, context, .. } => heading_text(colored, "Inferring type of"@)
            + context_text(colored, context@) + term_text(colored, term),
        CheckLog::VariableInference { var, context, .. } => heading_text(
            colored,
            "Inferring type of variable"@,
        ) + context_text(colored, context@) + var@,
        CheckLog::Inhabitable { term, context, .. } => heading_text(
            colored,
            "Checking inhabitability"@,
        ) + context_text(colored, context@) + heading_text(colored, "⊢ INH"@) + term_text(
            colored,
            term,
        ),
        CheckLog::Universe { term, context, .. } => heading_text(colored, "Checking universe"@)
            + context_text(colored, context@) + heading_text(colored, "⊢ UNIV"@) + term_text(
            colored,
            term,
        ),
        CheckLog::Subtype { sub, sup, context, .. } => heading_text(colored, "Checking subtyping"@)
            + context_text(colored, context@) + heading_text(colored, "⊢"@) + term_text(
            colored,
            sub,
        ) + infix_text(colored, "<:"@) + term_text(colored, sup),
        CheckLog::HasType { tm, tp, context, .. } => heading_text(colored, "Checking typing"@)
            + context_text(colored, context@) + heading_text(colored, "⊢"@) + term_text(colored, tm)
            + infix_text(colored, ":"@) + term_text(colored, tp),
        CheckLog::Equality { lhs, rhs, context, .. } => heading_text(colored, "Checking equality"@)
            + context_text(colored, context@) + heading_text(colored, "⊢"@) + term_text(
            colored,
            lhs,
        ) + infix_text(colored, "=="@) + term_text(colored, rhs),
        _ => Seq::empty(),
    }
}

/// The text of one entry, without its steps: a task line opens with whether
/// the task produced a result and closes with a produced term; a strategy
/// line names the strategy; a rule and a message show their pieces.
pub open spec fn entry_text(colored: bool, log: CheckLog) -> Seq<char> {
    match log {
        CheckLog::Simplify { result, .. } => status_text(colored, result is Some) + task_words(
            colored,
            log,
        ) + term_result_text(colored, result),
        CheckLog::Proving { result, .. } => status_text(colored, result is Some) + task_words(
            colored,
            log,
        ) + term_result_text(colored, result),
        CheckLog::Inference { result, .. } => status_text(colored, result is Some) + task_words(
            colored,
            log,
        ) + term_result_text(colored, result),
        CheckLog::VariableInference { result, .. } => status_text(colored, result is Some)
            + task_words(colored, log) + term_result_text(colored, result),
        CheckLog::Inhabitable { result, .. } => status_text(colored, result is Some) + task_words(
            colored,
            log,
        ),
        CheckLog::Universe { result, .. } => status_text(colored, result is Some) + task_words(
            colored,
            log,
        ),
        CheckLog::Subtype { result, .. } => status_text(colored, result is Some) + task_words(
            colored,
            log,
        ),
        CheckLog::HasType { result, .. } => status_text(colored, result is Some) + task_words(
            colored,
            log,
        ),
        CheckLog::Equality { result, .. } => status_text(colored, result is Some) + task_words(
            colored,
            log,
        ),
        CheckLog::Strategy { name, .. } => "Strategy: "@ + (if colored {
            italic_text(name@)
        } else {
            name@
        }),
        CheckLog::Rule { header, .. } => parts_text(colored, header@, None),
        CheckLog::Comment(p) => parts_text(colored, p@, Some(MessageLevel::Comment)),
        CheckLog::Emph(p) => parts_text(colored, p@, Some(MessageLevel::Emph)),
        CheckLog::Header(p) => parts_text(colored, p@, Some(MessageLevel::Header)),
        CheckLog::Fail(p) => parts_text(colored, p@, Some(MessageLevel::Failure)),
    }
}

/// The depth of the steps of an entry at depth `depth`.
pub open spec fn next_depth(depth: nat) -> nat {
    if depth < usize::MAX {
        depth + 1
    } else {
        depth
    }
}

/// A log at depth `depth`: each entry on a line of its own, its steps
/// below it one level deeper, in order.
pub open spec fn log_text(colored: bool, log: CheckLog, depth: nat) -> Seq<char>
    decreases log,
{
    line_text(colored, depth) + entry_text(colored, log) + (if log.has_steps() {
        logs_text(colored, log.steps(), next_depth(depth))
    } else {
        Seq::empty()
    })
}

/// Logs at depth `depth`, one after the other.
pub open spec fn logs_text(colored: bool, logs: Seq<CheckLog>, depth: nat) -> Seq<char>
    decreases logs,
{
    if logs.len() == 0 {
        Seq::empty()
    } else {
        logs_text(colored, logs.subrange(0, logs.len() - 1), depth) + log_text(
            colored,
            logs[logs.len() - 1],
            depth,
        )
    }
}


/// Appends the decimal digits of `m`.
fn put_digits(out: &mut String, m: u128)
    ensures
        final(out)@ == old(out)@ + decimal_digits(m as nat),
    decreases m,
{
    if m >= 10 {
        put_digits(out, m / 10);
    }
    let d: u8 = (m % 10) as u8;
    let c: char = (d + 48) as char;
    assert(c == digit_char((m % 10) as nat));
    crate::text::push_char(out, c);
}

/// The number `n` in decimal, with a leading `-` when negative, as `i128`'s
/// `Display` writes it.
pub(crate) fn i128_decimal(n: i128) -> (r: String)
    ensures
        r@ == decimal_text(n as int),
{
    let mut out = String::new();
    if n < 0 {
        proof {
            reveal_strlit("-");
        }
        put(&mut out, "-");
        let m: u128 = (-(n + 1)) as u128 + 1;
        put_digits(&mut out, m);
    } else {
        put_digits(&mut out, n as u128);
    }
    out
}

pub(crate) fn put(out: &mut String, s: &str)
    ensures
        final(out)@ == old(out)@ + s@,
{
    out.append(s);
}

fn put_emph(out: &mut String, colored: bool, s: &str)
    ensures
        final(out)@ == old(out)@ + emph_text(colored, s@),
{
    if colored {
        let w = bright_white(s);
        let b = bold(w.as_str());
        out.append(b.as_str());
    } else {
        out.append(s);
    }
}

fn put_heading(out: &mut String, colored: bool, s: &str)
    ensures
        final(out)@ == old(out)@ + heading_text(colored, s@),
{
    put_emph(out, colored, s);
    put(out, " ");
}

fn put_infix(out: &mut String, colored: bool, s: &str)
    ensures
        final(out)@ == old(out)@ + infix_text(colored, s@),
{
    put(out, " ");
    put_emph(out, colored, s);
    put(out, " ");
}

fn put_term(out: &mut String, colored: bool, t: &Term)
    ensures
        final(out)@ == old(out)@ + term_text(colored, *t),
{
    if colored {
        let y = yellow(t.short.as_str());
        out.append(y.as_str());
    } else {
        out.append(t.short.as_str());
    }
}

pub(crate) fn put_uri(out: &mut String, u: &Uri)
    ensures
        final(out)@ == old(out)@ + uri_text(*u),
{
    match u {
        Uri::Symbol { module_name, name } => {
            out.append(module_name.as_str());
            out.append("?");
            out.append(name.as_str());
        },
        Uri::Other(s) => out.append(s.as_str()),
    }
}

fn is_failure_level(lvl: Option<MessageLevel>) -> (r: bool)
    ensures
        r == (lvl == Some(MessageLevel::Failure)),
{
    match lvl {
        Some(MessageLevel::Failure) => true,
        _ => false,
    }
}

pub(crate) fn put_string(out: &mut String, colored: bool, s: &str, lvl: Option<MessageLevel>)
    ensures
        final(out)@ == old(out)@ + string_text(colored, s@, lvl),
{
    let failure = is_failure_level(lvl);
    if colored {
        if failure {
            let f = red("[FAILED]");
            out.append(f.as_str());
            out.append(" ");
            let t = red(s);
            out.append(t.as_str());
        } else {
            let t = bright_black(s);
            out.append(t.as_str());
        }
    } else {
        if failure {
            out.append("[FAILED] ");
        }
        out.append(s);
    }
}

fn put_displayable(out: &mut String, colored: bool, d: &Displayable, lvl: Option<MessageLevel>)
    ensures
        final(out)@ == old(out)@ + displayable_text(colored, *d, lvl),
{
    match d {
        Displayable::Num(n) => {
            let s = i128_decimal(*n);
            out.append(s.as_str());
        },
        Displayable::String(s) => put_string(out, colored, s.as_str(), lvl),
        Displayable::Term(t) => put_term(out, colored, t),
        Displayable::Uri(u) => put_uri(out, u),
        Displayable::Var(v) => out.append(v.name.as_str()),
    }
}

fn put_parts(out: &mut String, colored: bool, parts: &Vec<Displayable>, lvl: Option<MessageLevel>)
    ensures
        final(out)@ == old(out)@ + parts_text(colored, parts@, lvl),
{
    let ghost start = out@;
    let mut i: usize = 0;
    while i < parts.len()
        invariant
            i <= parts@.len(),
            out@ == start + parts_text(colored, parts@.take(i as int), lvl),
        decreases parts@.len() - i,
    {
        proof {
            assert(parts@.take(i + 1).drop_last() =~= parts@.take(i as int));
        }
        put_displayable(out, colored, &parts[i], lvl);
        i = i + 1;
    }
    proof {
        assert(parts@.take(parts@.len() as int) =~= parts@);
    }
}

fn indent_string(depth: usize) -> (r: String)
    ensures
        r@ == indent_text(depth as nat),
{
    let mut s = String::new();
    if depth > 0 {
        let mut i: usize = 0;
        while i < depth - 1
            invariant
                i <= depth - 1,
                s@ == repeat_text("  │"@, i as nat),
            decreases depth - 1 - i,
        {
            s.append("  │");
            i = i + 1;
        }
        s.append("  ├─");
    }
    s
}

fn put_line(out: &mut String, colored: bool, depth: usize)
    ensures
        final(out)@ == old(out)@ + line_text(colored, depth as nat),
{
    out.append("\n");
    let ind = indent_string(depth);
    if colored {
        let b = blue(ind.as_str());
        out.append(b.as_str());
    } else {
        out.append(ind.as_str());
    }
    out.append(" ");
}

fn put_status(out: &mut String, colored: bool, ok: bool)
    ensures
        final(out)@ == old(out)@ + status_text(colored, ok),
{
    if colored {
        if ok {
            let g = green("[SUCCESS]");
            out.append(g.as_str());
        } else {
            let r = red("[FAILED]");
            out.append(r.as_str());
        }
        out.append(" ");
    } else if ok {
        out.append("[SUCCESS] ");
    } else {
        out.append("[FAILED] ");
    }
}

fn put_var_entry(out: &mut String, colored: bool, v: &ComponentVar)
    ensures
        final(out)@ == old(out)@ + var_entry_text(colored, *v),
{
    out.append(v.var.name.as_str());
    if let Some(t) = &v.tp {
        out.append(" : ");
        put_term(out, colored, t);
    }
    if let Some(t) = &v.df {
        out.append(" : ");
        put_term(out, colored, t);
    }
}

fn put_context(out: &mut String, colored: bool, ctx: &Vec<ComponentVar>)
    ensures
        final(out)@ == old(out)@ + context_text(colored, ctx@),
{
    if ctx.len() == 0 {
        return;
    }
    let ghost start = out@;
    out.append("{... ");
    let mut i: usize = 0;
    while i < ctx.len()
        invariant
            i <= ctx@.len(),
            out@ == start + "{... "@ + var_entries_text(colored, ctx@.take(i as int)),
        decreases ctx@.len() - i,
    {
        proof {
            assert(ctx@.take(i + 1).drop_last() =~= ctx@.take(i as int));
        }
        if i > 0 {
            out.append(", ");
        }
        put_var_entry(out, colored, &ctx[i]);
        i = i + 1;
    }
    proof {
        assert(ctx@.take(ctx@.len() as int) =~= ctx@);
    }
    out.append(" } ");
}

fn put_term_result(out: &mut String, colored: bool, result: &Option<Term>)
    ensures
        final(out)@ == old(out)@ + term_result_text(colored, *result),
{
    if let Some(t) = result {
        put_string(out, colored, ": ", None);
        put_term(out, colored, t);
    }
}

#[verifier::spinoff_prover]
#[verifier::rlimit(50)]
fn put_task_words(out: &mut String, colored: bool, log: &CheckLog)
    ensures
        final(out)@ == old(out)@ + task_words(colored, *log),
{
    match log {
        CheckLog::Simplify { term, context, .. } => {
            put_heading(out, colored, "Simplifying");
            put_context(out, colored, context);
            put_term(out, colored, term);
        },
        CheckLog::Proving { term, context, .. } => {
            put_heading(out, colored, "Proving");
            put_context(out, colored, context);
            put_term(out, colored, term);
        },
        CheckLog::Inference { term, context, .. } => {
            put_heading(out, colored, "Inferring type of");
            put_context(out, colored, context);
            put_term(out, colored, term);
        },
        CheckLog::VariableInference { var, context, .. } => {
            put_heading(out, colored, "Inferring type of variable");
            put_context(out, colored, context);
            out.append(var.as_str());
        },
        CheckLog::Inhabitable { term, context, .. } => {
            put_heading(out, colored, "Checking inhabitability");
            put_context(out, colored, context);
            put_heading(out, colored, "⊢ INH");
            put_term(out, colored, term);
        },
        CheckLog::Universe { term, context, .. } => {
            put_heading(out, colored, "Checking universe");
            put_context(out, colored, context);
            put_heading(out, colored, "⊢ UNIV");
            put_term(out, colored, term);
        },
        CheckLog::Subtype { sub, sup, context, .. } => {
            put_heading(out, colored, "Checking subtyping");
            put_context(out, colored, context);
            put_heading(out, colored, "⊢");
            put_term(out, colored, sub);
            put_infix(out, colored, "<:");
            put_term(out, colored, sup);
        },
        CheckLog::HasType { tm, tp, context, .. } => {
            put_heading(out, colored, "Checking typing");
            put_context(out, colored, context);
            put_heading(out, colored, "⊢");
            put_term(out, colored, tm);
            put_infix(out, colored, ":");
            put_term(out, colored, tp);
        },
        CheckLog::Equality { lhs, rhs, context, .. } => {
            put_heading(out, colored, "Checking equality");
            put_context(out, colored, context);
            put_heading(out, colored, "⊢");
            put_term(out, colored, lhs);
            put_infix(out, colored, "==");
            put_term(out, colored, rhs);
        },
        _ => {},
    }
}

#[verifier::spinoff_prover]
#[verifier::rlimit(50)]
fn put_entry(out: &mut String, colored: bool, log: &CheckLog)
    ensures
        final(out)@ == old(out)@ + entry_text(colored, *log),
{
    match log {
        CheckLog::Simplify { result, .. } | CheckLog::Proving { result, .. }
        | CheckLog::Inference { result, .. } | CheckLog::VariableInference { result, .. } => {
            put_status(out, colored, result.is_some());
            put_task_words(out, colored, log);
            put_term_result(out, colored, result);
        },
        CheckLog::Inhabitable { result, .. } | CheckLog::Universe { result, .. }
        | CheckLog::Subtype { result, .. } | CheckLog::HasType { result, .. }
        | CheckLog::Equality { result, .. } => {
            put_status(out, colored, result.is_some());
            put_task_words(out, colored, log);
        },
        CheckLog::Strategy { name, .. } => {
            out.append("Strategy: ");
            if colored {
                let i = italic(name.as_str());
                out.append(i.as_str());
            } else {
                out.append(name.as_str());
            }
        },
        CheckLog::Rule { header, .. } => put_parts(out, colored, header, None),
        CheckLog::Comment(p) => put_parts(out, colored, p, Some(MessageLevel::Comment)),
        CheckLog::Emph(p) => put_parts(out, colored, p, Some(MessageLevel::Emph)),
        CheckLog::Header(p) => put_parts(out, colored, p, Some(MessageLevel::Header)),
        CheckLog::Fail(p) => put_parts(out, colored, p, Some(MessageLevel::Failure)),
    }
}

#[verifier::spinoff_prover]
#[verifier::rlimit(50)]
pub(crate) fn put_log(out: &mut String, colored: bool, log: &CheckLog, depth: usize)
    ensures
        final(out)@ == old(out)@ + log_text(colored, *log, depth as nat),
    decreases log,
{
    let ghost start = out@;
    put_line(out, colored, depth);
    put_entry(out, colored, log);
    if let Some(steps) = log.steps_ref() {
        let next: usize = if depth < usize::MAX {
            depth + 1
        } else {
            depth
        };
        let ghost mid = out@;
        let mut i: usize = 0;
        #[verifier::loop_isolation(false)]
        while i < steps.len()
            invariant
                i <= steps@.len(),
                out@ == mid + logs_text(colored, steps@.take(i as int), next as nat),
            decreases steps@.len() - i,
        {
            proof {
                lemma_step_decreases(*log, i as int);
                assert(steps@.take(i + 1).subrange(0, i as int) =~= steps@.take(i as int));
            }
            put_log(out, colored, &steps[i], next);
            i = i + 1;
        }
        proof {
            assert(steps@.take(steps@.len() as int) =~= steps@);
        }
    }
}

/// How a check log is written out: plainly, or coloured with ANSI escapes.
pub trait FmtTraceDisplay {
    /// Whether this way of writing colours the text.
    spec fn is_colored() -> bool;

    /// Whether this way of writing colours the text.
    fn colored() -> (r: bool)
        ensures
            r == Self::is_colored();
}

/// Plain text.
impl FmtTraceDisplay for () {
    open spec fn is_colored() -> bool {
        false
    }

    fn colored() -> (r: bool) {
        false
    }
}

/// Text coloured with ANSI escapes.
pub struct ColorDisplay;

impl FmtTraceDisplay for ColorDisplay {
    open spec fn is_colored() -> bool {
        true
    }

    fn colored() -> (r: bool) {
        true
    }
}

impl CheckLog {
    /// The log as text, one entry per line, steps indented below their
    /// entry; `D` says whether it is coloured.
    pub fn display<D: FmtTraceDisplay>(&self) -> (r: String)
        ensures
            r@ == log_text(D::is_colored(), *self, 0),
    {
        let mut out = String::new();
        put_log(&mut out, D::colored(), self, 0);
        out
    }

    /// The log as text coloured with ANSI escapes, laid out as `display`.
    pub fn colored(&self) -> (r: String)
        ensures
            r@ == log_text(true, *self, 0),
    {
        let mut out = String::new();
        put_log(&mut out, true, self, 0);
        out
    }
}

} // verus!
