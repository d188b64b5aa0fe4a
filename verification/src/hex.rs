//! The six-digit hexadecimal text form of an sRGB color.
//!
//! Each `[0, 1]` channel is quantized to an 8-bit integer (round to
//! nearest, clamped), the only lossy step in the crate: a channel
//! survives the trip to `Hex` and back to within one part in 255.
//! Parsing accepts exactly six hexadecimal digits, of either case and
//! with no leading marker; anything else is rejected with an error.

use vstd::prelude::*;
use vstd::string::StrSliceExecFns;
use vstd::string::StringExecFns;
use vstd::arithmetic::div_mod::lemma_div_is_ordered;
use vstd::arithmetic::div_mod::lemma_div_pos_is_pos;
use vstd::arithmetic::div_mod::lemma_fundamental_div_mod;
use crate::fixed::SCALE;
use crate::ColorSpace;
use crate::srgb::Srgb;

verus! {

/// Why a string failed to parse as a `Hex` color.
#[derive(Clone, Copy, Debug, PartialEq, Eq, Structural)]
pub enum HexParseError {
    /// The input is not exactly six characters long.
    WrongLength,
    /// The input holds a character that is not a hexadecimal digit.
    InvalidDigit,
}

/// An sRGB color quantized to one byte per channel, as written in a
/// six-digit hexadecimal string.
#[derive(Clone, Copy, Debug, PartialEq, Eq, Structural)]
pub struct Hex {
    /// The red channel, quantized.
    pub r: u8,
    /// The green channel, quantized.
    pub g: u8,
    /// The blue channel, quantized.
    pub b: u8,
}

/// The value of a hexadecimal digit, of either case; 16 marks a
/// character that is no hexadecimal digit.
pub open spec fn hex_digit_val(c: char) -> int {
    match c {
        '0' => 0,
        '1' => 1,
        '2' => 2,
        '3' => 3,
        '4' => 4,
        '5' => 5,
        '6' => 6,
        '7' => 7,
        '8' => 8,
        '9' => 9,
        'a' => 10,
        'b' => 11,
        'c' => 12,
        'd' => 13,
        'e' => 14,
        'f' => 15,
        'A' => 10,
        'B' => 11,
        'C' => 12,
        'D' => 13,
        'E' => 14,
        'F' => 15,
        _ => 16,
    }
}

/// Whether `c` is a hexadecimal digit of either case.
pub open spec fn is_hex_digit(c: char) -> bool {
    hex_digit_val(c) < 16
}

/// The byte a pair of hexadecimal digits denotes.
pub open spec fn byte_of_digits(hi: char, lo: char) -> int {
    16 * hex_digit_val(hi) + hex_digit_val(lo)
}

/// The lower-case hexadecimal digit for a value below 16.
pub open spec fn hex_char_of(v: int) -> char {
    if v == 0 {
        '0'
    } else if v == 1 {
        '1'
    } else if v == 2 {
        '2'
    } else if v == 3 {
        '3'
    } else if v == 4 {
        '4'
    } else if v == 5 {
        '5'
    } else if v == 6 {
        '6'
    } else if v == 7 {
        '7'
    } else if v == 8 {
        '8'
    } else if v == 9 {
        '9'
    } else if v == 10 {
        'a'
    } else if v == 11 {
        'b'
    } else if v == 12 {
        'c'
    } else if v == 13 {
        'd'
    } else if v == 14 {
        'e'
    } else {
        'f'
    }
}

/// The six lower-case digits that write a quantized color.
pub open spec fn hex_string_spec(h: Hex) -> Seq<char> {
    seq![
        hex_char_of(h.r as int / 16),
        hex_char_of(h.r as int % 16),
        hex_char_of(h.g as int / 16),
        hex_char_of(h.g as int % 16),
        hex_char_of(h.b as int / 16),
        hex_char_of(h.b as int % 16),
    ]
}

/// A fixed-point channel quantized to a byte: rounded to the nearest
/// of the 256 levels, out-of-range input clamped.
pub open spec fn quantize_spec(x: int) -> int {
    if x <= 0 {
        0
    } else if x >= SCALE as int {
        255
    } else {
        (x * 255 + (SCALE as int) / 2) / (SCALE as int)
    }
}

/// A byte widened back to a fixed-point channel in `[0, 1]`.
pub open spec fn dequantize_spec(n: int) -> int {
    (n * (SCALE as int)) / 255
}

fn hex_digit_val_exec(c: char) -> (v: u8)
    ensures
        v == hex_digit_val(c),
{
    match c {
        '0' => 0,
        '1' => 1,
        '2' => 2,
        '3' => 3,
        '4' => 4,
        '5' => 5,
        '6' => 6,
        '7' => 7,
        '8' => 8,
        '9' => 9,
        'a' => 10,
        'b' => 11,
        'c' => 12,
        'd' => 13,
        'e' => 14,
        'f' => 15,
        'A' => 10,
        'B' => 11,
        'C' => 12,
        'D' => 13,
        'E' => 14,
        'F' => 15,
        _ => 16,
    }
}

fn quantize(x: i64) -> (q: u8)
    ensures
        q == quantize_spec(x as int),
{
    if x <= 0 {
        0
    } else if x >= SCALE {
        255
    } else {
        let num: u64 = (x as u64) * 255 + 50_000_000;
        let q64: u64 = num / 100_000_000;
        proof {
            lemma_div_is_ordered(num as int, 25_549_999_745int, 100_000_000int);
        }
        q64 as u8
    }
}

fn dequantize(n: u8) -> (x: i64)
    ensures
        x == dequantize_spec(n as int),
        0 <= x <= SCALE,
{
    let num: u64 = (n as u64) * 100_000_000;
    proof {
        lemma_div_is_ordered(num as int, 25_500_000_000int, 255int);
        lemma_div_pos_is_pos(num as int, 255int);
    }
    (num / 255) as i64
}

/// Append the lower-case digit for `v` to a string.
fn push_hex_digit(out: &mut String, v: u8)
    requires
        v < 16,
    ensures
        final(out)@ == old(out)@ + seq![hex_char_of(v as int)],
{
    proof {
        reveal_strlit("0");
        reveal_strlit("1");
        reveal_strlit("2");
        reveal_strlit("3");
        reveal_strlit("4");
        reveal_strlit("5");
        reveal_strlit("6");
        reveal_strlit("7");
        reveal_strlit("8");
        reveal_strlit("9");
        reveal_strlit("a");
        reveal_strlit("b");
        reveal_strlit("c");
        reveal_strlit("d");
        reveal_strlit("e");
        reveal_strlit("f");
    }
    match v {
        0 => out.append("0"),
        1 => out.append("1"),
        2 => out.append("2"),
        3 => out.append("3"),
        4 => out.append("4"),
        5 => out.append("5"),
        6 => out.append("6"),
        7 => out.append("7"),
        8 => out.append("8"),
        9 => out.append("9"),
        10 => out.append("a"),
        11 => out.append("b"),
        12 => out.append("c"),
        13 => out.append("d"),
        14 => out.append("e"),
        _ => out.append("f"),
    }
    proof {
        assert(out@ =~= old(out)@ + seq![hex_char_of(v as int)]);
    }
}

impl Hex {
    /// Quantize an sRGB color to a byte per channel.
    pub fn from_srgb(c: Srgb) -> (h: Hex)
        ensures
            h.r == quantize_spec(c.r as int),
            h.g == quantize_spec(c.g as int),
            h.b == quantize_spec(c.b as int),
    {
        Hex { r: quantize(c.r), g: quantize(c.g), b: quantize(c.b) }
    }

    /// Widen the quantized channels back to an sRGB color.
    pub fn to_srgb(self) -> (c: Srgb)
        ensures
            c.r == dequantize_spec(self.r as int),
            c.g == dequantize_spec(self.g as int),
            c.b == dequantize_spec(self.b as int),
            c.in_bounds_spec(),
            c.in_dom(),
    {
        Srgb { r: dequantize(self.r), g: dequantize(self.g), b: dequantize(self.b) }
    }

    /// Parse exactly six hexadecimal digits, of either case, into a
    /// quantized color. Any other shape of input is rejected.
    pub fn parse(s: &str) -> (r: Result<Hex, HexParseError>)
        ensures
            match r {
                Ok(h) => {
                    &&& s@.len() == 6
                    &&& forall|i: int| 0 <= i < 6 ==> is_hex_digit(#[trigger] s@[i])
                    &&& h.r == byte_of_digits(s@[0], s@[1])
                    &&& h.g == byte_of_digits(s@[2], s@[3])
                    &&& h.b == byte_of_digits(s@[4], s@[5])
                },
                Err(HexParseError::WrongLength) => s@.len() != 6,
                Err(HexParseError::InvalidDigit) => {
                    &&& s@.len() == 6
                    &&& exists|i: int| 0 <= i < 6 && !is_hex_digit(#[trigger] s@[i])
                },
            },
    {
        if s.unicode_len() != 6 {
            return Err(HexParseError::WrongLength);
        }
        let v0: u8 = hex_digit_val_exec(s.get_char(0));
        let v1: u8 = hex_digit_val_exec(s.get_char(1));
        let v2: u8 = hex_digit_val_exec(s.get_char(2));
        let v3: u8 = hex_digit_val_exec(s.get_char(3));
        let v4: u8 = hex_digit_val_exec(s.get_char(4));
        let v5: u8 = hex_digit_val_exec(s.get_char(5));
        if v0 >= 16 || v1 >= 16 || v2 >= 16 || v3 >= 16 || v4 >= 16 || v5 >= 16 {
            return Err(HexParseError::InvalidDigit);
        }
        Ok(Hex { r: 16 * v0 + v1, g: 16 * v2 + v3, b: 16 * v4 + v5 })
    }

    /// Write the color as six lower-case hexadecimal digits.
    pub fn to_hex_string(self) -> (r: String)
        ensures
            r@ == hex_string_spec(self),
    {
        let mut out = String::new();
        push_hex_digit(&mut out, self.r / 16);
        push_hex_digit(&mut out, self.r % 16);
        push_hex_digit(&mut out, self.g / 16);
        push_hex_digit(&mut out, self.g % 16);
        push_hex_digit(&mut out, self.b / 16);
        push_hex_digit(&mut out, self.b % 16);
        proof {
            assert(out@ =~= hex_string_spec(self));
        }
        out
    }
}

/// A quantized byte is stable: widening it to a fixed-point channel
/// and quantizing again returns exactly the same byte, so a `Hex`
/// color survives the trip through `Srgb` and back unchanged.
pub proof fn lemma_hex_bytes_stable(n: int)
    requires
        0 <= n <= 255,
    ensures
        quantize_spec(dequantize_spec(n)) == n,
{
    let s = SCALE as int;
    let d = dequantize_spec(n);
    lemma_fundamental_div_mod(n * s, 255);
    vstd::arithmetic::div_mod::lemma_mod_bound(n * s, 255);
    let r1 = (n * s) % 255;
    assert(255 * d == n * s - r1);
    if n == 0 {
        assert(d == 0) by {
            vstd::arithmetic::div_mod::lemma_div_multiples_vanish(0, 255);
            assert(0 * s == 255 * 0);
        }
    } else if n == 255 {
        assert(d == s) by {
            vstd::arithmetic::div_mod::lemma_div_multiples_vanish(s, 255);
        }
    } else {
        assert(0 < d < s) by (nonlinear_arith)
            requires
                255 * d == n * s - r1,
                0 <= r1 < 255,
                1 <= n <= 254,
                s == 100_000_000,
        ;
        assert(d * 255 + s / 2 == s * n + (s / 2 - r1)) by (nonlinear_arith)
            requires
                255 * d == n * s - r1,
        ;
        vstd::arithmetic::div_mod::lemma_div_multiples_vanish_fancy(n, s / 2 - r1, s);
    }
}

/// An sRGB color with channels in `[0, 1]` survives the trip through
/// its hexadecimal form to within 0.002 of a whole unit per channel —
/// well within the one part in 255 the 8-bit quantization admits.
pub proof fn lemma_hex_round_trip(c: Srgb)
    requires
        0 <= c.r as int <= SCALE as int,
        0 <= c.g as int <= SCALE as int,
        0 <= c.b as int <= SCALE as int,
    ensures
        -200_000 <= dequantize_spec(quantize_spec(c.r as int)) - c.r as int <= 200_000,
        -200_000 <= dequantize_spec(quantize_spec(c.g as int)) - c.g as int <= 200_000,
        -200_000 <= dequantize_spec(quantize_spec(c.b as int)) - c.b as int <= 200_000,
{
    lemma_hex_quantization_error(c.r as int);
    lemma_hex_quantization_error(c.g as int);
    lemma_hex_quantization_error(c.b as int);
}

/// Quantizing a fixed-point channel in `[0, 1]` and widening it back
/// moves it by at most 0.002 of a whole unit: the hexadecimal form
/// loses at most one part in 255 per channel.
pub proof fn lemma_hex_quantization_error(x: int)
    requires
        0 <= x <= SCALE as int,
    ensures
        -200_000 <= dequantize_spec(quantize_spec(x)) - x <= 200_000,
{
    let s = SCALE as int;
    if x <= 0 {
        assert(dequantize_spec(0) == 0) by {
            lemma_div_pos_is_pos(0, 255int);
        }
    } else if x >= s {
        assert(dequantize_spec(255) == s);
    } else {
        let q = quantize_spec(x);
        lemma_fundamental_div_mod(x * 255 + s / 2, s);
        vstd::arithmetic::div_mod::lemma_mod_bound(x * 255 + s / 2, s);
        assert(x * 255 - s / 2 < q * s <= x * 255 + s / 2) by (nonlinear_arith)
            requires
                x * 255 + s / 2 == s * q + (x * 255 + s / 2) % s,
                0 <= (x * 255 + s / 2) % s < s,
                s == 100_000_000,
        ;
        assert(0 <= q <= 255) by (nonlinear_arith)
            requires
                x * 255 - s / 2 < q * s <= x * 255 + s / 2,
                0 < x < s,
                s == 100_000_000,
        ;
        let d = dequantize_spec(q);
        lemma_fundamental_div_mod(q * s, 255);
        vstd::arithmetic::div_mod::lemma_mod_bound(q * s, 255);
        assert(q * s - 255 < d * 255 <= q * s) by (nonlinear_arith)
            requires
                q * s == 255 * d + (q * s) % 255,
                0 <= (q * s) % 255 < 255,
        ;
        assert(-200_000 <= d - x <= 200_000) by (nonlinear_arith)
            requires
                x * 255 - s / 2 < q * s <= x * 255 + s / 2,
                q * s - 255 < d * 255 <= q * s,
                s == 100_000_000,
        ;
    }
}

} // verus!
