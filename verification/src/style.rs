//! Terminal colours for the texts that the command line shows.

use colored::Colorize;
use vstd::prelude::*;

verus! {

/// The escape character, which begins every terminal control sequence.
pub open spec fn escape() -> char {
    '\u{1b}'
}

/// The control sequence that resets the colours.
pub open spec fn reset() -> Seq<char> {
    seq![escape(), '[', '0', 'm']
}

/// `text` between the control sequence that selects the foreground colour
/// `code` and the one that resets it.
pub open spec fn painted(text: Seq<char>, code: Seq<char>) -> Seq<char> {
    seq![escape(), '['] + code + seq!['m'] + text + reset()
}

/// Whether `styled` is one of the forms in which `text` reaches a terminal
/// in the colour `code`: the text as it is, where colours are off; the
/// painted text, where they are on; the text with the reset sequence alone,
/// where they are switched off while the text is being written.
pub open spec fn is_terminal_form(styled: Seq<char>, text: Seq<char>, code: Seq<char>) -> bool {
    styled == text || styled == painted(text, code) || styled == text + reset()
}

/// Whether `styled` may be what a terminal is given for `text` in the
/// colour `code`. Of a text that itself holds an escape character nothing
/// is said.
pub open spec fn is_styled(styled: Seq<char>, text: Seq<char>, code: Seq<char>) -> bool {
    !text.contains(escape()) ==> is_terminal_form(styled, text, code)
}

/// The code of the green foreground.
pub open spec fn green_code() -> Seq<char> {
    seq!['3', '2']
}

/// The code of the cyan foreground.
pub open spec fn cyan_code() -> Seq<char> {
    seq!['3', '6']
}

/// `colored::Colorize::green` on a string slice, written out through
/// `Display`. Whether colours are on is for the environment to say: the
/// result is the text unchanged where they are off, and the text between
/// `ESC[32m` and `ESC[0m` where they are on. The crate asks more than once
/// while it writes; should the answer turn to "off" in between, the text
/// comes out with `ESC[0m` behind it and nothing in front. The crate also
/// rewrites reset sequences that the text itself holds, so the claim is
/// made only of a text without an escape character.
#[verifier::external_body]
pub(crate) fn green(text: &str) -> (styled: String)
    ensures
        is_styled(styled@, text@, green_code()),
{
    text.green().to_string()
}

/// `colored::Colorize::cyan` on a string slice, written out through
/// `Display`: as [`green`], with `ESC[36m` in front.
#[verifier::external_body]
pub(crate) fn cyan(text: &str) -> (styled: String)
    ensures
        is_styled(styled@, text@, cyan_code()),
{
    text.cyan().to_string()
}

} // verus!
