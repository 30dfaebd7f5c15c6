//! RGBA colour values and their construction from packed hexadecimal text.

use vstd::prelude::*;
use vstd::string::*;

verus! {

/// A colour of four 8-bit channels. Two colours are equal exactly when all
/// four channels are, the alpha channel included.
#[derive(Copy, Clone, Debug, PartialEq, Eq, Hash, Structural)]
pub struct TextColour {
    pub r: u8,
    pub g: u8,
    pub b: u8,
    pub a: u8,
}

/// The value of one hexadecimal digit, in either letter case.
pub open spec fn hex_digit(c: char) -> Option<u8> {
    let v = c as u32;
    if 0x30 <= v <= 0x39 {
        Some((v - 0x30) as u8)
    } else if 0x41 <= v <= 0x46 {
        Some((v - 0x41 + 10) as u8)
    } else if 0x61 <= v <= 0x66 {
        Some((v - 0x61 + 10) as u8)
    } else {
        None
    }
}

/// The channel written by the two digits at `at` and `at + 1`, high digit first.
pub open spec fn hex_pair(s: Seq<char>, at: int) -> Option<u8> {
    if 0 <= at && at + 1 < s.len() {
        match (hex_digit(s[at]), hex_digit(s[at + 1])) {
            (Some(high), Some(low)) => Some((high * 16 + low) as u8),
            _ => None,
        }
    } else {
        None
    }
}

/// How many characters the optional leading `#` takes: one or none.
pub open spec fn marker_len(s: Seq<char>) -> int {
    if s.len() > 0 && s[0] == '#' {
        1
    } else {
        0
    }
}

/// The opaque colour that `s` writes: an optional `#`, then two digits each
/// for red, green and blue. `None` where fewer than six characters follow the
/// marker or one of the six is no hexadecimal digit. Further characters are
/// not read.
pub open spec fn parsed_rgb(s: Seq<char>) -> Option<TextColour> {
    let m = marker_len(s);
    match (hex_pair(s, m), hex_pair(s, m + 2), hex_pair(s, m + 4)) {
        (Some(r), Some(g), Some(b)) => Some(TextColour { r, g, b, a: 255 }),
        _ => None,
    }
}

/// The colour that `s` writes with an explicit alpha: an optional `#`, then
/// two digits each for red, green, blue and alpha.
pub open spec fn parsed_rgba(s: Seq<char>) -> Option<TextColour> {
    let m = marker_len(s);
    match (hex_pair(s, m), hex_pair(s, m + 2), hex_pair(s, m + 4), hex_pair(s, m + 6)) {
        (Some(r), Some(g), Some(b), Some(a)) => Some(TextColour { r, g, b, a }),
        _ => None,
    }
}

/// Reads one hexadecimal digit.
pub fn hex_digit_value(c: char) -> (v: Option<u8>)
    ensures
        v == hex_digit(c),
{
    let code: u32 = c as u32;
    if 0x30 <= code && code <= 0x39 {
        Some((code - 0x30) as u8)
    } else if 0x41 <= code && code <= 0x46 {
        Some((code - 0x41 + 10) as u8)
    } else if 0x61 <= code && code <= 0x66 {
        Some((code - 0x61 + 10) as u8)
    } else {
        None
    }
}

/// Reads the channel at characters `at` and `at + 1` of a text of `len` characters.
fn read_pair(hex: &str, len: usize, at: usize) -> (v: Option<u8>)
    requires
        len == hex@.len(),
        at <= 7,
    ensures
        v == hex_pair(hex@, at as int),
{
    if at + 1 >= len {
        return None;
    }
    match (hex_digit_value(hex.get_char(at)), hex_digit_value(hex.get_char(at + 1))) {
        (Some(high), Some(low)) => Some(high * 16 + low),
        _ => None,
    }
}

/// Counts the optional leading `#`.
fn read_marker(hex: &str, len: usize) -> (m: usize)
    requires
        len == hex@.len(),
    ensures
        m == marker_len(hex@),
{
    if len > 0 && hex.get_char(0) == '#' {
        1
    } else {
        0
    }
}

impl TextColour {
    /// A colour from its four channels.
    pub fn new(r: u8, g: u8, b: u8, a: u8) -> (c: Self)
        ensures
            c == (TextColour { r, g, b, a }),
    {
        Self { r, g, b, a }
    }

    /// A fully opaque colour from its three colour channels.
    pub fn new_rgb(r: u8, g: u8, b: u8) -> (c: Self)
        ensures
            c == (TextColour { r, g, b, a: 255 }),
    {
        Self { r, g, b, a: 255 }
    }

    /// The four channels packed into one word, red in the highest byte.
    pub open spec fn packed(self) -> u32 {
        (self.r as u32 * 0x100_0000 + self.g as u32 * 0x1_0000 + self.b as u32 * 0x100
            + self.a as u32) as u32
    }

    /// Computes [`Self::packed`].
    pub fn to_packed(&self) -> (p: u32)
        ensures
            p == self.packed(),
    {
        self.r as u32 * 0x100_0000 + self.g as u32 * 0x1_0000 + self.b as u32 * 0x100
            + self.a as u32
    }

    /// Parses `#RRGGBB` or `RRGGBB` into an opaque colour; `None` exactly
    /// where the text is malformed.
    pub fn try_from_hex(hex: &str) -> (c: Option<Self>)
        ensures
            c == parsed_rgb(hex@),
    {
        let len: usize = hex.unicode_len();
        let m: usize = read_marker(hex, len);
        match (read_pair(hex, len, m), read_pair(hex, len, m + 2), read_pair(hex, len, m + 4)) {
            (Some(r), Some(g), Some(b)) => Some(Self { r, g, b, a: 255 }),
            _ => None,
        }
    }

    /// Parses `#RRGGBBAA` or `RRGGBBAA`; `None` exactly where the text is
    /// malformed.
    pub fn try_from_hex_with_alpha(hex: &str) -> (c: Option<Self>)
        ensures
            c == parsed_rgba(hex@),
    {
        let len: usize = hex.unicode_len();
        let m: usize = read_marker(hex, len);
        match (
            read_pair(hex, len, m),
            read_pair(hex, len, m + 2),
            read_pair(hex, len, m + 4),
            read_pair(hex, len, m + 6),
        ) {
            (Some(r), Some(g), Some(b), Some(a)) => Some(Self { r, g, b, a }),
            _ => None,
        }
    }

    /// The opaque colour written by well-formed hexadecimal text.
    pub fn from_hex(hex: &str) -> (c: Self)
        requires
            parsed_rgb(hex@).is_some(),
        ensures
            Some(c) == parsed_rgb(hex@),
    {
        match Self::try_from_hex(hex) {
            Some(c) => c,
            None => vstd::pervasive::unreached(),
        }
    }

    /// The colour written by well-formed hexadecimal text with an alpha pair.
    pub fn from_hex_with_alpha(hex: &str) -> (c: Self)
        requires
            parsed_rgba(hex@).is_some(),
        ensures
            Some(c) == parsed_rgba(hex@),
    {
        match Self::try_from_hex_with_alpha(hex) {
            Some(c) => c,
            None => vstd::pervasive::unreached(),
        }
    }
}

} // verus!
