//! The pixel, and its colour code.

use vstd::prelude::*;
use vstd::string::StrSliceExecFns;

verus! {

/// An RGB colour with eight bits per channel.
#[derive(Debug, Clone, Copy, PartialEq, Eq, Default, Hash, Structural)]
pub struct Pixel {
    pub r: u8,
    pub g: u8,
    pub b: u8,
}

/// The value of a hexadecimal digit, or `None` for any other character.
pub open spec fn hex_value(c: char) -> Option<u8> {
    if '0' <= c && c <= '9' {
        Some((c as u8 - '0' as u8) as u8)
    } else if 'a' <= c && c <= 'f' {
        Some((c as u8 - 'a' as u8 + 10) as u8)
    } else if 'A' <= c && c <= 'F' {
        Some((c as u8 - 'A' as u8 + 10) as u8)
    } else {
        None
    }
}

/// The lower-case hexadecimal digit that stands for `v`, for `v` below 16.
pub open spec fn hex_digit(v: u8) -> char {
    if v < 10 {
        (v + '0' as u8) as char
    } else {
        (v - 10 + 'a' as u8) as char
    }
}

/// The byte written by two hexadecimal digits, the high one first.
pub open spec fn hex_pair(hi: char, lo: char) -> Option<u8> {
    match (hex_value(hi), hex_value(lo)) {
        (Some(h), Some(l)) => Some((16 * h + l) as u8),
        _ => None,
    }
}

/// What a colour code stands for: `#` followed by exactly six hexadecimal
/// digits, two per channel in the order red, green, blue. Every other text
/// stands for nothing.
pub open spec fn parse_hex(s: Seq<char>) -> Option<Pixel> {
    if s.len() == 7 && s[0] == '#' {
        match (hex_pair(s[1], s[2]), hex_pair(s[3], s[4]), hex_pair(s[5], s[6])) {
            (Some(r), Some(g), Some(b)) => Some(Pixel { r, g, b }),
            _ => None,
        }
    } else {
        None
    }
}

/// The colour code of a pixel: `#`, then two lower-case hexadecimal digits
/// for each of red, green and blue.
pub open spec fn format_hex(p: Pixel) -> Seq<char> {
    seq![
        '#',
        hex_digit(p.r / 16),
        hex_digit(p.r % 16),
        hex_digit(p.g / 16),
        hex_digit(p.g % 16),
        hex_digit(p.b / 16),
        hex_digit(p.b % 16),
    ]
}

fn digit_value(c: char) -> (res: Option<u8>)
    ensures
        res == hex_value(c),
{
    if '0' <= c && c <= '9' {
        Some(c as u8 - '0' as u8)
    } else if 'a' <= c && c <= 'f' {
        Some(c as u8 - 'a' as u8 + 10)
    } else if 'A' <= c && c <= 'F' {
        Some(c as u8 - 'A' as u8 + 10)
    } else {
        None
    }
}

fn digit_char(v: u8) -> (res: char)
    requires
        v < 16,
    ensures
        res == hex_digit(v),
{
    if v < 10 {
        (v + '0' as u8) as char
    } else {
        (v - 10 + 'a' as u8) as char
    }
}

fn pair_value(hi: char, lo: char) -> (res: Option<u8>)
    ensures
        res == hex_pair(hi, lo),
{
    match (digit_value(hi), digit_value(lo)) {
        (Some(h), Some(l)) => Some(16 * h + l),
        _ => None,
    }
}

impl Pixel {
    /// Reads a colour code such as `#ff8000`.
    pub fn from_hex(hex: &str) -> (res: Option<Pixel>)
        ensures
            res == parse_hex(hex@),
    {
        if hex.unicode_len() != 7 {
            return None;
        }
        if hex.get_char(0) != '#' {
            return None;
        }
        let r = pair_value(hex.get_char(1), hex.get_char(2));
        let g = pair_value(hex.get_char(3), hex.get_char(4));
        let b = pair_value(hex.get_char(5), hex.get_char(6));
        match (r, g, b) {
            (Some(r), Some(g), Some(b)) => Some(Pixel { r, g, b }),
            _ => None,
        }
    }

    /// Writes the pixel as a colour code, lower case and zero padded.
    pub fn to_hex(&self) -> (res: String)
        ensures
            res@ == format_hex(*self),
    {
        let mut out = String::new();
        out.push('#');
        out.push(digit_char(self.r / 16));
        out.push(digit_char(self.r % 16));
        out.push(digit_char(self.g / 16));
        out.push(digit_char(self.g % 16));
        out.push(digit_char(self.b / 16));
        out.push(digit_char(self.b % 16));
        out
    }

    /// The three channels in the order red, green, blue, or blue, green, red
    /// when `reverse` is set.
    pub open spec fn channel_bytes(self, reverse: bool) -> Seq<u8> {
        if reverse {
            seq![self.b, self.g, self.r]
        } else {
            seq![self.r, self.g, self.b]
        }
    }

    /// Serialises the pixel as three bytes, in RGB order or, with `reverse`,
    /// in BGR order.
    pub fn to_bytes(&self, reverse: bool) -> (res: Vec<u8>)
        ensures
            res@ == self.channel_bytes(reverse),
    {
        let mut res: Vec<u8> = Vec::new();
        if reverse {
            res.push(self.b);
            res.push(self.g);
            res.push(self.r);
        } else {
            res.push(self.r);
            res.push(self.g);
            res.push(self.b);
        }
        res
    }

    /// Whether no channel is above `ceiling`.
    pub open spec fn within(self, ceiling: u8) -> bool {
        self.r <= ceiling && self.g <= ceiling && self.b <= ceiling
    }

    /// The pixel with every channel replaced by its complement to 255.
    pub open spec fn inverted(self) -> Pixel {
        Pixel { r: (255 - self.r) as u8, g: (255 - self.g) as u8, b: (255 - self.b) as u8 }
    }

    /// Inverts the pixel: every channel `c` becomes `255 - c`.
    pub fn invert(&self) -> (res: Pixel)
        ensures
            res == self.inverted(),
    {
        Pixel { r: 255 - self.r, g: 255 - self.g, b: 255 - self.b }
    }
}

/// Whether `c` is one of the digits `0` to `9` or the letters `a` to `f`.
pub open spec fn is_lower_hex(c: char) -> bool {
    ('0' <= c && c <= '9') || ('a' <= c && c <= 'f')
}

/// Inverting a pixel twice gives the pixel back.
pub proof fn invert_is_involution(p: Pixel)
    ensures
        p.inverted().inverted() == p,
{
}

/// A colour code is accepted exactly when it has seven characters, the first
/// of them `#` and each of the other six a hexadecimal digit.
pub proof fn from_hex_accepts_exactly(s: Seq<char>)
    ensures
        parse_hex(s) is Some <==> (s.len() == 7 && s[0] == '#' && forall|i: int|
            1 <= i < 7 ==> (#[trigger] hex_value(s[i])) is Some),
{
    if s.len() == 7 && s[0] == '#' {
        if forall|i: int| 1 <= i < 7 ==> (#[trigger] hex_value(s[i])) is Some {
            assert(hex_value(s[1]) is Some);
            assert(hex_value(s[2]) is Some);
            assert(hex_value(s[3]) is Some);
            assert(hex_value(s[4]) is Some);
            assert(hex_value(s[5]) is Some);
            assert(hex_value(s[6]) is Some);
        }
    }
}

/// Reading the colour code of a pixel gives that pixel back.
pub proof fn from_hex_inverts_to_hex(p: Pixel)
    ensures
        parse_hex(format_hex(p)) == Some(p),
{
    hex_digit_round_trip(p.r / 16);
    hex_digit_round_trip(p.r % 16);
    hex_digit_round_trip(p.g / 16);
    hex_digit_round_trip(p.g % 16);
    hex_digit_round_trip(p.b / 16);
    hex_digit_round_trip(p.b % 16);
}

/// Writing the pixel that a lower-case colour code stands for gives the code
/// back.
pub proof fn to_hex_inverts_from_hex(s: Seq<char>)
    requires
        parse_hex(s) is Some,
        forall|i: int| 1 <= i < 7 ==> is_lower_hex(#[trigger] s[i]),
    ensures
        format_hex(parse_hex(s)->0) == s,
{
    let p = parse_hex(s)->0;
    lower_hex_round_trip(s[1]);
    lower_hex_round_trip(s[2]);
    lower_hex_round_trip(s[3]);
    lower_hex_round_trip(s[4]);
    lower_hex_round_trip(s[5]);
    lower_hex_round_trip(s[6]);
    assert(format_hex(p) =~= s);
}

proof fn hex_digit_round_trip(v: u8)
    requires
        v < 16,
    ensures
        hex_value(hex_digit(v)) == Some(v),
        is_lower_hex(hex_digit(v)),
{
}

proof fn lower_hex_round_trip(c: char)
    requires
        is_lower_hex(c),
    ensures
        hex_value(c) matches Some(v) && v < 16 && hex_digit(v) == c,
{
}

} // verus!
