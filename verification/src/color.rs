//! The escape sequences that switch the terminal's foreground colour.

use crate::text::decimal;
use vstd::prelude::*;

verus! {

/// The sequence that sets a true-colour foreground: `ESC [ 38 ; 2 ; r ; g ; b m`.
pub open spec fn foreground(red: u8, green: u8, blue: u8) -> Seq<char> {
    seq!['\x1b', '[', '3', '8', ';', '2', ';'] + decimal(red as nat) + seq![';'] + decimal(
        green as nat,
    ) + seq![';'] + decimal(blue as nat) + seq!['m']
}

/// The sequence that puts the foreground back to the terminal's default: `ESC [ 39 m`.
pub open spec fn foreground_reset() -> Seq<char> {
    seq!['\x1b', '[', '3', '9', 'm']
}

/// The escape sequence for a true-colour foreground.
///
/// Trusted: formats `termion::color::Fg(termion::color::Rgb(..))`, which
/// writes the CSI prefix, `38;2;`, the three components in base ten separated
/// by semicolons, and `m`.
#[verifier::external_body]
pub(crate) fn fg_rgb(red: u8, green: u8, blue: u8) -> (code: String)
    ensures
        code@ == foreground(red, green, blue),
{
    format!("{}", termion::color::Fg(termion::color::Rgb(red, green, blue)))
}

/// The escape sequence that resets the foreground colour.
///
/// Trusted: formats `termion::color::Fg(termion::color::Reset)`, which writes
/// the CSI prefix followed by `39m`.
#[verifier::external_body]
pub(crate) fn fg_reset() -> (code: String)
    ensures
        code@ == foreground_reset(),
{
    format!("{}", termion::color::Fg(termion::color::Reset))
}

} // verus!
