//! Colouring text for a terminal, through the `console` crate.
//!
//! Whether the crate writes colour at all is decided by the process's
//! environment, so every contract here allows both outcomes: the text as it
//! is, or the text between the escape sequences of its tint.

use vstd::prelude::*;

verus! {

/// The looks this library gives to text.
#[derive(Clone, Copy, Debug, PartialEq, Eq, Structural)]
pub enum Tint {
    /// Dimmed cyan: a line of the primary stream.
    DimCyan,
    /// Dimmed yellow: a line of the secondary stream.
    DimYellow,
    /// Green: the report of a run that succeeded.
    Green,
    /// Red: the report of a run that failed.
    Red,
}

/// The escape sequence `ESC [ <code> m`.
pub open spec fn escape(code: Seq<char>) -> Seq<char> {
    seq!['\u{1b}', '['] + code + seq!['m']
}

/// The sequence that switches every attribute off again.
pub open spec fn reset() -> Seq<char> {
    escape(seq!['0'])
}

/// The sequences written in front of a text of the given tint: the
/// foreground colour first, then the dimming where the tint has it.
pub open spec fn lead(tint: Tint) -> Seq<char> {
    match tint {
        Tint::DimCyan => escape(seq!['3', '6']) + escape(seq!['2']),
        Tint::DimYellow => escape(seq!['3', '3']) + escape(seq!['2']),
        Tint::Green => escape(seq!['3', '2']),
        Tint::Red => escape(seq!['3', '1']),
    }
}

/// `text` in colour: its tint's sequences, the text, and the reset.
pub open spec fn coloured(text: Seq<char>, tint: Tint) -> Seq<char> {
    lead(tint) + text + reset()
}

/// `out` is one of the two forms in which `text` can come back from the
/// painter.
pub open spec fn is_painting(out: Seq<char>, text: Seq<char>, tint: Tint) -> bool {
    out == text || out == coloured(text, tint)
}

/// `console::style(text).dim().cyan()`, written out through its `Display`.
///
/// Trusted: where `console` has colours switched off the result is `text`
/// itself; where they are on it is `ESC[36m ESC[2m`, then `text`, then
/// `ESC[0m`.
#[verifier::external_body]
fn dim_cyan(text: &str) -> (out: String)
    ensures
        is_painting(out@, text@, Tint::DimCyan),
{
    console::style(text).dim().cyan().to_string()
}

/// `console::style(text).dim().yellow()`, written out through its `Display`.
///
/// Trusted: where `console` has colours switched off the result is `text`
/// itself; where they are on it is `ESC[33m ESC[2m`, then `text`, then
/// `ESC[0m`.
#[verifier::external_body]
fn dim_yellow(text: &str) -> (out: String)
    ensures
        is_painting(out@, text@, Tint::DimYellow),
{
    console::style(text).dim().yellow().to_string()
}

/// `console::style(text).fg(Color::Green)`, written out through its `Display`.
///
/// Trusted: where `console` has colours switched off the result is `text`
/// itself; where they are on it is `ESC[32m`, then `text`, then `ESC[0m`.
#[verifier::external_body]
fn green(text: &str) -> (out: String)
    ensures
        is_painting(out@, text@, Tint::Green),
{
    console::style(text).fg(console::Color::Green).to_string()
}

/// `console::style(text).fg(Color::Red)`, written out through its `Display`.
///
/// Trusted: where `console` has colours switched off the result is `text`
/// itself; where they are on it is `ESC[31m`, then `text`, then `ESC[0m`.
#[verifier::external_body]
fn red(text: &str) -> (out: String)
    ensures
        is_painting(out@, text@, Tint::Red),
{
    console::style(text).fg(console::Color::Red).to_string()
}

/// `text` in the given tint, as `console` writes it in this process.
pub fn paint(text: &str, tint: Tint) -> (out: String)
    ensures
        is_painting(out@, text@, tint),
{
    match tint {
        Tint::DimCyan => dim_cyan(text),
        Tint::DimYellow => dim_yellow(text),
        Tint::Green => green(text),
        Tint::Red => red(text),
    }
}

} // verus!
