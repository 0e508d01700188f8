//! Colours as the parser reports them, and their `#rrggbb` rendering.

use vstd::prelude::*;
use crate::text::push_char;

verus! {

/// A colour named by an SGR sequence.
#[derive(Clone, Copy, Debug, PartialEq, Eq, Structural)]
pub enum ColorSpec {
    /// The terminal's default colour.
    Default,
    /// An entry of the 256-colour palette.
    PaletteIndex(u8),
    /// A 24-bit colour, as red, green and blue.
    TrueColor(u8, u8, u8),
}

/// The sixteen system colours of the 256-colour palette (xterm's values).
pub open spec fn system_rgb(idx: u8) -> (u8, u8, u8)
    recommends
        idx < 16,
{
    seq![
        (0x00u8, 0x00u8, 0x00u8), (0xcdu8, 0x00u8, 0x00u8), (0x00u8, 0xcdu8, 0x00u8), (0xcdu8, 0xcdu8, 0x00u8),
        (0x00u8, 0x00u8, 0xeeu8), (0xcdu8, 0x00u8, 0xcdu8), (0x00u8, 0xcdu8, 0xcdu8), (0xe5u8, 0xe5u8, 0xe5u8),
        (0x7fu8, 0x7fu8, 0x7fu8), (0xffu8, 0x00u8, 0x00u8), (0x00u8, 0xffu8, 0x00u8), (0xffu8, 0xffu8, 0x00u8),
        (0x5cu8, 0x5cu8, 0xffu8), (0xffu8, 0x00u8, 0xffu8), (0x00u8, 0xffu8, 0xffu8), (0xffu8, 0xffu8, 0xffu8),
    ][idx as int]
}

/// A component level of the 6x6x6 colour cube: 0, then 95 to 255 in steps of 40.
pub open spec fn cube_level(k: int) -> u8 {
    if k == 0 {
        0
    } else {
        (55 + 40 * k) as u8
    }
}

/// The 24-bit colour of a 256-colour palette entry: the system colours, then
/// the 6x6x6 cube from index 16, then 24 greys from 8 to 238 in steps of 10.
pub open spec fn palette_rgb(idx: u8) -> (u8, u8, u8) {
    if idx < 16 {
        system_rgb(idx)
    } else if idx < 232 {
        let n = idx - 16;
        (cube_level(n / 36), cube_level((n / 6) % 6), cube_level(n % 6))
    } else {
        let g = (8 + 10 * (idx - 232)) as u8;
        (g, g, g)
    }
}

/// Relies on `ansi_colours::rgb_from_ansi256`: the red, green and blue
/// components of a 256-colour palette entry, read from its constant table.
#[verifier::external_body]
fn rgb_of_palette(idx: u8) -> (r: (u8, u8, u8))
    ensures
        r == palette_rgb(idx),
{
    ansi_colours::rgb_from_ansi256(idx)
}

/// The lower-case hexadecimal digit of `n` (below 16).
pub open spec fn hex_digit(n: u8) -> char
    recommends
        n < 16,
{
    if n < 10 {
        ((48 + n) as u8) as char
    } else {
        ((87 + n) as u8) as char
    }
}

/// Two lower-case hexadecimal digits for a byte.
pub open spec fn hex_byte(b: u8) -> Seq<char> {
    seq![hex_digit(b / 16), hex_digit(b % 16)]
}

/// `#rrggbb` in lower-case hexadecimal.
pub open spec fn rgb_hex(r: u8, g: u8, b: u8) -> Seq<char> {
    seq!['#'] + hex_byte(r) + hex_byte(g) + hex_byte(b)
}

/// The hex rendering of a colour; the default colour has none.
pub open spec fn color_hex(c: ColorSpec) -> Option<Seq<char>> {
    match c {
        ColorSpec::Default => None,
        ColorSpec::PaletteIndex(i) => {
            let rgb = palette_rgb(i);
            Some(rgb_hex(rgb.0, rgb.1, rgb.2))
        },
        ColorSpec::TrueColor(r, g, b) => Some(rgb_hex(r, g, b)),
    }
}

fn hex_digit_of(n: u8) -> (c: char)
    requires
        n < 16,
    ensures
        c == hex_digit(n),
{
    if n < 10 {
        (48 + n) as char
    } else {
        (87 + n) as char
    }
}

/// Appends two lower-case hexadecimal digits for `b`.
pub fn push_hex_byte(s: &mut String, b: u8)
    ensures
        final(s)@ == old(s)@ + hex_byte(b),
{
    push_char(s, hex_digit_of(b / 16));
    push_char(s, hex_digit_of(b % 16));
    assert(final(s)@ =~= old(s)@ + hex_byte(b));
}

/// `#rrggbb` for the given components.
pub fn rgb_string(r: u8, g: u8, b: u8) -> (out: String)
    ensures
        out@ == rgb_hex(r, g, b),
{
    let mut out = String::new();
    push_char(&mut out, '#');
    push_hex_byte(&mut out, r);
    push_hex_byte(&mut out, g);
    push_hex_byte(&mut out, b);
    assert(out@ =~= rgb_hex(r, g, b));
    out
}

/// The `#rrggbb` rendering of a colour, or `None` for the default colour.
pub fn hex_color(color: &ColorSpec) -> (r: Option<String>)
    ensures
        match r {
            Some(s) => color_hex(*color) == Some(s@),
            None => color_hex(*color) is None,
        },
{
    match color {
        ColorSpec::Default => None,
        ColorSpec::PaletteIndex(i) => {
            let (r, g, b) = rgb_of_palette(*i);
            Some(rgb_string(r, g, b))
        },
        ColorSpec::TrueColor(r, g, b) => Some(rgb_string(*r, *g, *b)),
    }
}

} // verus!
