use owo_colors::OwoColorize;
use vstd::prelude::*;

verus! {

/// Text shown in the foreground colour whose ANSI code is `code`, followed
/// by the reset of the foreground colour.
pub open spec fn fg_text(code: Seq<char>, s: Seq<char>) -> Seq<char> {
    "\x1b["@ + code + "m"@ + s + "\x1b[39m"@
}

/// Text shown with the ANSI style `code`, followed by a full reset.
pub open spec fn style_text(code: Seq<char>, s: Seq<char>) -> Seq<char> {
    "\x1b["@ + code + "m"@ + s + "\x1b[0m"@
}

/// Text in green.
pub open spec fn green_text(s: Seq<char>) -> Seq<char> {
    fg_text("32"@, s)
}

/// Text in red.
pub open spec fn red_text(s: Seq<char>) -> Seq<char> {
    fg_text("31"@, s)
}

/// Text in yellow.
pub open spec fn yellow_text(s: Seq<char>) -> Seq<char> {
    fg_text("33"@, s)
}

/// Text in blue.
pub open spec fn blue_text(s: Seq<char>) -> Seq<char> {
    fg_text("34"@, s)
}

/// Text in bright black (grey).
pub open spec fn bright_black_text(s: Seq<char>) -> Seq<char> {
    fg_text("90"@, s)
}

/// Text in bright white.
pub open spec fn bright_white_text(s: Seq<char>) -> Seq<char> {
    fg_text("97"@, s)
}

/// Text in bold.
pub open spec fn bold_text(s: Seq<char>) -> Seq<char> {
    style_text("1"@, s)
}

/// Text in italics.
pub open spec fn italic_text(s: Seq<char>) -> Seq<char> {
    style_text("3"@, s)
}

/// `OwoColorize::green` on a string, rendered: owo-colors writes the ANSI
/// foreground code 32, the text, and the foreground reset `ESC[39m`.
#[verifier::external_body]
pub(crate) fn green(s: &str) -> (r: String)
    ensures
        r@ == green_text(s@),
{
    format!("{}", s.green())
}

/// `OwoColorize::red` on a string, rendered (foreground code 31).
#[verifier::external_body]
pub(crate) fn red(s: &str) -> (r: String)
    ensures
        r@ == red_text(s@),
{
    format!("{}", s.red())
}

/// `OwoColorize::yellow` on a string, rendered (foreground code 33).
#[verifier::external_body]
pub(crate) fn yellow(s: &str) -> (r: String)
    ensures
        r@ == yellow_text(s@),
{
    format!("{}", s.yellow())
}

/// `OwoColorize::blue` on a string, rendered (foreground code 34).
#[verifier::external_body]
pub(crate) fn blue(s: &str) -> (r: String)
    ensures
        r@ == blue_text(s@),
{
    format!("{}", s.blue())
}

/// `OwoColorize::bright_black` on a string, rendered (foreground code 90).
#[verifier::external_body]
pub(crate) fn bright_black(s: &str) -> (r: String)
    ensures
        r@ == bright_black_text(s@),
{
    format!("{}", s.bright_black())
}

/// `OwoColorize::bright_white` on a string, rendered (foreground code 97).
#[verifier::external_body]
pub(crate) fn bright_white(s: &str) -> (r: String)
    ensures
        r@ == bright_white_text(s@),
{
    format!("{}", s.bright_white())
}

/// `OwoColorize::bold` on a string, rendered: owo-colors writes `ESC[1m`,
/// the text, and the full reset `ESC[0m`.
#[verifier::external_body]
pub(crate) fn bold(s: &str) -> (r: String)
    ensures
        r@ == bold_text(s@),
{
    format!("{}", s.bold())
}

/// `OwoColorize::italic` on a string, rendered: `ESC[3m`, the text, and the
/// full reset `ESC[0m`.
#[verifier::external_body]
pub(crate) fn italic(s: &str) -> (r: String)
    ensures
        r@ == italic_text(s@),
{
    format!("{}", s.italic())
}

} // verus!
