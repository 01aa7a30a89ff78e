//! Terminal directives and text primitives used by the renderers.
//!
//! The control sequences themselves come from termion and the grapheme
//! segmentation from unicode-segmentation; this module states what each of
//! them produces.

use vstd::prelude::*;
use unicode_segmentation::UnicodeSegmentation;

verus! {

/// A truecolor RGB value.
#[derive(Clone, Copy, PartialEq, Eq, Structural, Debug)]
pub struct Rgb(pub u8, pub u8, pub u8);

/// The escape character that opens a terminal control sequence.
pub const ESC: char = '\x1b';

/// The character that closes a style (SGR) sequence.
pub const SGR_END: char = 'm';

/// The decimal digit for `d < 10`.
pub open spec fn digit(d: nat) -> char {
    seq!['0', '1', '2', '3', '4', '5', '6', '7', '8', '9'][d as int]
}

/// Decimal notation of `n`, without leading zeros.
pub open spec fn decimal(n: nat) -> Seq<char>
    decreases n,
{
    if n < 10 {
        seq![digit(n)]
    } else {
        decimal(n / 10).push(digit(n % 10))
    }
}

/// Control sequence introducer: ESC followed by `[`.
pub open spec fn csi() -> Seq<char> {
    seq![ESC, '[']
}

/// The directive that moves the terminal cursor to column `x`, row `y` (1-based).
pub open spec fn goto_text(x: u16, y: u16) -> Seq<char> {
    csi() + decimal(y as nat) + seq![';'] + decimal(x as nat) + seq!['H']
}

/// The directive that sets a truecolor background.
pub open spec fn bg_text(c: Rgb) -> Seq<char> {
    csi() + seq!['4', '8', ';', '2', ';'] + decimal(c.0 as nat) + seq![';'] + decimal(c.1 as nat)
        + seq![';'] + decimal(c.2 as nat) + seq![SGR_END]
}

/// The directive that resets every style attribute.
pub open spec fn reset_text() -> Seq<char> {
    csi() + seq![SGR_END]
}

/// The extended grapheme clusters of a string, in order.
pub uninterp spec fn clusters_of(s: Seq<char>) -> Seq<Seq<char>>;

/// Relies on `termion::cursor::Goto` converted to a `String`: `ESC [ y ; x H`.
#[verifier::external_body]
pub(crate) fn goto(x: u16, y: u16) -> (r: String)
    ensures
        r@ == goto_text(x, y),
{
    String::from(termion::cursor::Goto(x, y))
}

/// Relies on `termion::color::Rgb::bg_string`: `ESC [ 48 ; 2 ; r ; g ; b m`.
#[verifier::external_body]
pub(crate) fn bg_color(c: Rgb) -> (r: String)
    ensures
        r@ == bg_text(c),
{
    termion::color::Rgb(c.0, c.1, c.2).bg_string()
}

/// Relies on `termion::style::Reset` as a `&str`: `ESC [ m`.
#[verifier::external_body]
pub(crate) fn reset() -> (r: String)
    ensures
        r@ == reset_text(),
{
    let s: &str = termion::style::Reset.as_ref();
    s.to_string()
}

/// Relies on `UnicodeSegmentation::graphemes` (extended clusters), each
/// cluster copied into its own `String`. The iterator yields consecutive,
/// non-empty slices of `s`, from its start to its end.
#[verifier::external_body]
pub(crate) fn graphemes(s: &str) -> (r: Vec<String>)
    ensures
        r@.map_values(|g: String| g@) == clusters_of(s@),
        r@.map_values(|g: String| g@).flatten() == s@,
        forall|i: int| 0 <= i < r@.len() ==> (#[trigger] r@[i])@.len() > 0,
{
    s.graphemes(true).map(|g| g.to_string()).collect()
}

/// Relies on `String::push`: appends one character.
#[verifier::external_body]
pub(crate) fn push_char(s: &mut String, c: char)
    ensures
        final(s)@ == old(s)@.push(c),
{
    s.push(c)
}

} // verus!
