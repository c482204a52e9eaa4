//! Terminal style sequences, as termion writes them.
use termion::color;
use vstd::prelude::*;

verus! {

/// The named terminal colors that this editor uses.
#[derive(Clone, Copy, Debug, PartialEq, Eq, Structural)]
pub enum Color {
    Red,
    Green,
    Yellow,
    Blue,
    Magenta,
    LightBlack,
    LightGreen,
    LightYellow,
    LightMagenta,
    LightCyan,
}

/// A control sequence: escape, `[`, then `body`.
pub open spec fn csi(body: Seq<char>) -> Seq<char> {
    seq!['\x1b', '['] + body
}

/// The decimal palette index of a color.
pub open spec fn palette_index(c: Color) -> Seq<char> {
    match c {
        Color::Red => seq!['1'],
        Color::Green => seq!['2'],
        Color::Yellow => seq!['3'],
        Color::Blue => seq!['4'],
        Color::Magenta => seq!['5'],
        Color::LightBlack => seq!['8'],
        Color::LightGreen => seq!['1', '0'],
        Color::LightYellow => seq!['1', '1'],
        Color::LightMagenta => seq!['1', '3'],
        Color::LightCyan => seq!['1', '4'],
    }
}

/// The sequence that sets the foreground to `c`.
pub open spec fn fg_seq(c: Color) -> Seq<char> {
    csi(seq!['3', '8', ';', '5', ';'] + palette_index(c) + seq!['m'])
}

/// The sequence that sets the background to `c`.
pub open spec fn bg_seq(c: Color) -> Seq<char> {
    csi(seq!['4', '8', ';', '5', ';'] + palette_index(c) + seq!['m'])
}

/// The sequence that resets the foreground.
pub open spec fn reset_fg_seq() -> Seq<char> {
    csi(seq!['3', '9', 'm'])
}

/// The sequence that resets the background.
pub open spec fn reset_bg_seq() -> Seq<char> {
    csi(seq!['4', '9', 'm'])
}

/// Relies on `fg_str` of termion's color types, which returns the
/// foreground sequence with the color's palette index.
#[verifier::external_body]
fn fg_str(c: Color) -> (r: &'static str)
    ensures
        r@ == fg_seq(c),
{
    match c {
        Color::Red => color::Red.fg_str(),
        Color::Green => color::Green.fg_str(),
        Color::Yellow => color::Yellow.fg_str(),
        Color::Blue => color::Blue.fg_str(),
        Color::Magenta => color::Magenta.fg_str(),
        Color::LightBlack => color::LightBlack.fg_str(),
        Color::LightGreen => color::LightGreen.fg_str(),
        Color::LightYellow => color::LightYellow.fg_str(),
        Color::LightMagenta => color::LightMagenta.fg_str(),
        Color::LightCyan => color::LightCyan.fg_str(),
    }
}

/// Relies on `color::LightBlack::bg_str`: the background sequence with
/// palette index 8.
#[verifier::external_body]
fn light_black_bg_str() -> (r: &'static str)
    ensures
        r@ == bg_seq(Color::LightBlack),
{
    color::LightBlack.bg_str()
}

/// Relies on `color::Reset::fg_str`: the foreground reset sequence.
#[verifier::external_body]
fn reset_fg_str() -> (r: &'static str)
    ensures
        r@ == reset_fg_seq(),
{
    color::Reset.fg_str()
}

/// Relies on `color::Reset::bg_str`: the background reset sequence.
#[verifier::external_body]
fn reset_bg_str() -> (r: &'static str)
    ensures
        r@ == reset_bg_seq(),
{
    color::Reset.bg_str()
}

/// The sequence that sets the foreground to `c`.
pub fn fg_string(c: Color) -> (r: String)
    ensures
        r@ == fg_seq(c),
{
    String::from_str(fg_str(c))
}

/// The foreground reset sequence.
pub fn reset_fg() -> (r: String)
    ensures
        r@ == reset_fg_seq(),
{
    String::from_str(reset_fg_str())
}

/// The background reset sequence.
pub fn reset_bg() -> (r: String)
    ensures
        r@ == reset_bg_seq(),
{
    String::from_str(reset_bg_str())
}

/// The background that marks selected text.
pub fn selection_bg() -> (r: String)
    ensures
        r@ == bg_seq(Color::LightBlack),
{
    String::from_str(light_black_bg_str())
}

} // verus!
