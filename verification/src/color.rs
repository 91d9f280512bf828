//! Colours with four 8-bit channels, and the hexadecimal notation for them.

use crate::error::ColorError;
use crate::text::to_chars;
use vstd::prelude::*;

verus! {

/// A colour with red, green, blue and alpha channels, not premultiplied.
#[derive(Clone, Copy, Debug, PartialEq, Eq, Structural)]
pub struct Rgba {
    pub r: u8,
    pub g: u8,
    pub b: u8,
    pub a: u8,
}

impl Rgba {
    /// The colour with the given channels.
    pub fn new(r: u8, g: u8, b: u8, a: u8) -> (c: Rgba)
        ensures
            c == (Rgba { r, g, b, a }),
    {
        Rgba { r, g, b, a }
    }
}

/// The value of a hexadecimal digit, in either case.
pub open spec fn hex_value(c: char) -> Option<u8> {
    let v = c as u32;
    if '0' as u32 <= v <= '9' as u32 {
        Some((v - '0' as u32) as u8)
    } else if 'a' as u32 <= v <= 'f' as u32 {
        Some((v - 'a' as u32 + 10) as u8)
    } else if 'A' as u32 <= v <= 'F' as u32 {
        Some((v - 'A' as u32 + 10) as u8)
    } else {
        None
    }
}

/// The byte that two hexadecimal digits write, high digit first.
pub open spec fn hex_pair(high: char, low: char) -> Option<u8> {
    match (hex_value(high), hex_value(low)) {
        (Some(h), Some(l)) => Some((16 * h + l) as u8),
        _ => None,
    }
}

/// `s` without one leading `#`, if it has one.
pub open spec fn without_hash(s: Seq<char>) -> Seq<char> {
    if s.len() > 0 && s[0] == '#' {
        s.skip(1)
    } else {
        s
    }
}

/// What a colour string means: after an optional `#`, exactly six
/// hexadecimal digits, two each for red, green and blue. The colour is
/// opaque.
pub open spec fn parsed_color(s: Seq<char>) -> Result<Rgba, ColorError> {
    let body = without_hash(s);
    if body.len() != 6 {
        Err(ColorError::InvalidLength)
    } else {
        match (hex_pair(body[0], body[1]), hex_pair(body[2], body[3]), hex_pair(body[4], body[5])) {
            (Some(r), Some(g), Some(b)) => Ok(Rgba { r, g, b, a: 255 }),
            _ => Err(ColorError::InvalidDigit),
        }
    }
}

/// The value of the hexadecimal digit `c`.
fn hex_digit(c: char) -> (r: Option<u8>)
    ensures
        r == hex_value(c),
{
    let v: u32 = c as u32;
    if '0' as u32 <= v && v <= '9' as u32 {
        Some((v - '0' as u32) as u8)
    } else if 'a' as u32 <= v && v <= 'f' as u32 {
        Some((v - 'a' as u32 + 10) as u8)
    } else if 'A' as u32 <= v && v <= 'F' as u32 {
        Some((v - 'A' as u32 + 10) as u8)
    } else {
        None
    }
}

/// The byte written by the digits `high` and `low`.
fn hex_byte(high: char, low: char) -> (r: Option<u8>)
    ensures
        r == hex_pair(high, low),
{
    match (hex_digit(high), hex_digit(low)) {
        (Some(h), Some(l)) => Some(16 * h + l),
        _ => None,
    }
}

/// Reads a colour such as `FFFFFF` or `#ffffff`.
pub fn parse_color(color: &str) -> (r: Result<Rgba, ColorError>)
    ensures
        r == parsed_color(color@),
{
    let chars = to_chars(color);
    let start: usize = if chars.len() > 0 && chars[0] == '#' {
        1
    } else {
        0
    };
    let ghost body = without_hash(color@);
    assert(body =~= chars@.skip(start as int));
    if chars.len() - start != 6 {
        return Err(ColorError::InvalidLength);
    }
    let red = hex_byte(chars[start], chars[start + 1]);
    let green = hex_byte(chars[start + 2], chars[start + 3]);
    let blue = hex_byte(chars[start + 4], chars[start + 5]);
    match (red, green, blue) {
        (Some(r), Some(g), Some(b)) => Ok(Rgba { r, g, b, a: 255 }),
        _ => Err(ColorError::InvalidDigit),
    }
}

} // verus!
