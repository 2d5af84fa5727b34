use owo_colors::OwoColorize;
use vstd::prelude::*;

verus! {

/// The escape sequence that selects the text attribute or colour numbered `code`.
pub open spec fn escape(code: Seq<char>) -> Seq<char> {
    seq!['\x1b', '['] + code + seq!['m']
}

/// `text` between the sequence for the foreground colour `code` and the one that
/// restores the default foreground.
pub open spec fn coloured(code: Seq<char>, text: Seq<char>) -> Seq<char> {
    escape(code) + text + escape(seq!['3', '9'])
}

/// `text` between the sequence for the attribute `code` and the one that resets all.
pub open spec fn attributed(code: Seq<char>, text: Seq<char>) -> Seq<char> {
    escape(code) + text + escape(seq!['0'])
}

/// `text` in green.
pub open spec fn green_text(text: Seq<char>) -> Seq<char> {
    coloured(seq!['3', '2'], text)
}

/// `text` in red.
pub open spec fn red_text(text: Seq<char>) -> Seq<char> {
    coloured(seq!['3', '1'], text)
}

/// `text` in yellow.
pub open spec fn yellow_text(text: Seq<char>) -> Seq<char> {
    coloured(seq!['3', '3'], text)
}

/// `text` in bold.
pub open spec fn bold_text(text: Seq<char>) -> Seq<char> {
    attributed(seq!['1'], text)
}

/// `text` dimmed.
pub open spec fn dimmed_text(text: Seq<char>) -> Seq<char> {
    attributed(seq!['2'], text)
}

/// Calls `OwoColorize::green` of owo-colors and formats what it gives: the text after
/// `ESC[32m` and before `ESC[39m`.
#[verifier::external_body]
pub(crate) fn green(text: &str) -> (styled: String)
    ensures
        styled@ == green_text(text@),
{
    text.green().to_string()
}

/// Calls `OwoColorize::red` of owo-colors and formats what it gives: the text after
/// `ESC[31m` and before `ESC[39m`.
#[verifier::external_body]
pub(crate) fn red(text: &str) -> (styled: String)
    ensures
        styled@ == red_text(text@),
{
    text.red().to_string()
}

/// Calls `OwoColorize::yellow` of owo-colors and formats what it gives: the text after
/// `ESC[33m` and before `ESC[39m`.
#[verifier::external_body]
pub(crate) fn yellow(text: &str) -> (styled: String)
    ensures
        styled@ == yellow_text(text@),
{
    text.yellow().to_string()
}

/// Calls `OwoColorize::bold` of owo-colors and formats what it gives: the text after
/// `ESC[1m` and before `ESC[0m`.
#[verifier::external_body]
pub(crate) fn bold(text: &str) -> (styled: String)
    ensures
        styled@ == bold_text(text@),
{
    text.bold().to_string()
}

/// Calls `OwoColorize::dimmed` of owo-colors and formats what it gives: the text after
/// `ESC[2m` and before `ESC[0m`.
#[verifier::external_body]
pub(crate) fn dimmed(text: &str) -> (styled: String)
    ensures
        styled@ == dimmed_text(text@),
{
    text.dimmed().to_string()
}

} // verus!
