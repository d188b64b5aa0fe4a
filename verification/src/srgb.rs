//! Gamma-encoded (display-ready) sRGB and its transfer function to
//! and from linear RGB.
//!
//! Encoding applies the standard sRGB piecewise curve per channel: a
//! linear segment with slope 12.92 below the 0.0031308 threshold, and
//! `1.055 * x^(1/2.4) - 0.055` above it. The exponent `1/2.4` is the
//! rational `5/12`, realized exactly over the fixed-point model as the
//! fifth fixed power of the twelfth fixed root. Decoding inverts each
//! segment the same way, with `2.4 = 12/5`.

use vstd::prelude::*;
use vstd::arithmetic::power::pow;
use crate::ColorSpace;
use crate::CoreColorSpace;
use crate::approx_in_range;
use crate::approx_in_range_spec;
use crate::fixed::SCALE;
use crate::fixed::fmul;
use crate::fixed::fmul_spec;
use crate::fixed::lemma_fmul_bound;
use crate::fixed::lemma_fmul_nonneg;
use crate::fixed::lemma_pow_fix_bound;
use crate::fixed::nth_root_fix;
use crate::fixed::pow_fix;
use crate::fixed::pow_fix_exec;
use crate::fixed::root_fix;
use crate::linear_rgb::CHAN_DOM_CAP;
use crate::linear_rgb::LinearRgb;

verus! {

/// Threshold below which the encoding curve is linear (0.0031308).
pub const SRGB_ENCODE_THRESHOLD: i64 = 313_080;

/// Threshold below which the decoding curve is linear (0.04045).
pub const SRGB_DECODE_THRESHOLD: i64 = 4_045_000;

/// Slope of the linear encoding segment (12.92).
pub const SRGB_LINEAR_GAIN: i64 = 1_292_000_000;

/// Reciprocal slope used when decoding the linear segment (1/12.92).
pub const SRGB_LINEAR_GAIN_INV: i64 = 7_739_938;

/// Gain of the power-law segment (1.055).
pub const SRGB_GAMMA_GAIN: i64 = 105_500_000;

/// Offset of the power-law segment (0.055).
pub const SRGB_GAMMA_OFFSET: i64 = 5_500_000;

/// Reciprocal gain used when decoding the power-law segment (1/1.055).
pub const SRGB_GAMMA_GAIN_INV: i64 = 94_786_730;

/// What encoding one linear channel returns.
pub open spec fn srgb_encode_spec(x: int) -> int {
    if x <= SRGB_ENCODE_THRESHOLD as int {
        fmul_spec(x, SRGB_LINEAR_GAIN as int)
    } else {
        fmul_spec(SRGB_GAMMA_GAIN as int, pow_fix(root_fix(x, 12), 5)) - (
        SRGB_GAMMA_OFFSET as int)
    }
}

/// What decoding one encoded channel returns.
pub open spec fn srgb_decode_spec(s: int) -> int {
    if s <= SRGB_DECODE_THRESHOLD as int {
        fmul_spec(s, SRGB_LINEAR_GAIN_INV as int)
    } else {
        pow_fix(root_fix(fmul_spec(s + (SRGB_GAMMA_OFFSET as int), SRGB_GAMMA_GAIN_INV as int), 5), 12)
    }
}

/// Encode one linear channel.
fn encode_channel(x: i64) -> (r: i64)
    requires
        -CHAN_DOM_CAP <= x <= CHAN_DOM_CAP,
    ensures
        r == srgb_encode_spec(x as int),
{
    if x <= SRGB_ENCODE_THRESHOLD {
        proof {
            lemma_fmul_bound(x as int, SRGB_LINEAR_GAIN as int, 200_000_000, 1_292_000_000);
        }
        fmul(x, SRGB_LINEAR_GAIN)
    } else {
        proof {
            assert(pow_fix(200_000_000, 12) == 409_600_000_000) by {
                reveal_with_fuel(pow_fix, 13);
            }
        }
        let root: i64 = nth_root_fix(x, 12, 200_000_000);
        proof {
            lemma_pow_fix_bound(root as int, 2, 5);
            assert(pow(2int, 5nat) == 32) by {
                reveal_with_fuel(vstd::arithmetic::power::pow, 6);
            }
        }
        let powered: i64 = pow_fix_exec(root, 5);
        proof {
            lemma_fmul_bound(SRGB_GAMMA_GAIN as int, powered as int, 105_500_000, 3_200_000_000);
            lemma_fmul_nonneg(SRGB_GAMMA_GAIN as int, powered as int);
        }
        fmul(SRGB_GAMMA_GAIN, powered) - SRGB_GAMMA_OFFSET
    }
}

/// Decode one encoded channel back to linear.
fn decode_channel(s: i64) -> (r: i64)
    requires
        -CHAN_DOM_CAP <= s <= CHAN_DOM_CAP,
    ensures
        r == srgb_decode_spec(s as int),
{
    if s <= SRGB_DECODE_THRESHOLD {
        proof {
            lemma_fmul_bound(s as int, SRGB_LINEAR_GAIN_INV as int, 200_000_000, 7_739_938);
        }
        fmul(s, SRGB_LINEAR_GAIN_INV)
    } else {
        proof {
            lemma_fmul_bound(
                s as int + (SRGB_GAMMA_OFFSET as int),
                SRGB_GAMMA_GAIN_INV as int,
                205_500_000,
                94_786_730,
            );
            lemma_fmul_nonneg(s as int + (SRGB_GAMMA_OFFSET as int), SRGB_GAMMA_GAIN_INV as int);
        }
        let base: i64 = fmul(s + SRGB_GAMMA_OFFSET, SRGB_GAMMA_GAIN_INV);
        proof {
            assert(pow_fix(200_000_000, 5) == 3_200_000_000) by {
                reveal_with_fuel(pow_fix, 6);
            }
        }
        let root: i64 = nth_root_fix(base, 5, 200_000_000);
        pow_fix_exec(root, 12)
    }
}

/// A color from the sRGB color space: gamma-encoded red, green and
/// blue, each nominally in `[0, 1]`, in fixed-point components scaled
/// by [`SCALE`](crate::SCALE).
#[derive(Clone, Copy, Debug, PartialEq, Eq, Structural)]
pub struct Srgb {
    /// The red channel.
    pub r: i64,
    /// The green channel.
    pub g: i64,
    /// The blue channel.
    pub b: i64,
}

impl Srgb {
    /// Every channel is within the magnitude cap the transfer
    /// function accepts.
    pub open spec fn in_dom(self) -> bool {
        &&& -(CHAN_DOM_CAP as int) <= self.r as int <= CHAN_DOM_CAP as int
        &&& -(CHAN_DOM_CAP as int) <= self.g as int <= CHAN_DOM_CAP as int
        &&& -(CHAN_DOM_CAP as int) <= self.b as int <= CHAN_DOM_CAP as int
    }

    /// Gamma-encode a linear RGB color.
    pub fn from_linear(c: LinearRgb) -> (r: Srgb)
        requires
            c.in_dom(),
        ensures
            r.r == srgb_encode_spec(c.r as int),
            r.g == srgb_encode_spec(c.g as int),
            r.b == srgb_encode_spec(c.b as int),
    {
        Srgb {
            r: encode_channel(c.r),
            g: encode_channel(c.g),
            b: encode_channel(c.b),
        }
    }

    /// Decode this gamma-encoded color back to linear RGB.
    pub fn to_linear(self) -> (r: LinearRgb)
        requires
            self.in_dom(),
        ensures
            r.r == srgb_decode_spec(self.r as int),
            r.g == srgb_decode_spec(self.g as int),
            r.b == srgb_decode_spec(self.b as int),
    {
        LinearRgb {
            r: decode_channel(self.r),
            g: decode_channel(self.g),
            b: decode_channel(self.b),
        }
    }
}

impl ColorSpace for Srgb {
    open spec fn black_spec() -> Srgb {
        Srgb { r: 0, g: 0, b: 0 }
    }

    open spec fn white_spec() -> Srgb {
        Srgb { r: SCALE, g: SCALE, b: SCALE }
    }

    open spec fn in_bounds_spec(self) -> bool {
        &&& approx_in_range_spec(self.r as int, 0, SCALE as int)
        &&& approx_in_range_spec(self.g as int, 0, SCALE as int)
        &&& approx_in_range_spec(self.b as int, 0, SCALE as int)
    }

    fn black() -> (c: Srgb) {
        Srgb { r: 0, g: 0, b: 0 }
    }

    fn white() -> (c: Srgb) {
        Srgb { r: SCALE, g: SCALE, b: SCALE }
    }

    fn in_bounds(self) -> (c: bool) {
        approx_in_range(self.r, 0, SCALE) && approx_in_range(self.g, 0, SCALE)
            && approx_in_range(self.b, 0, SCALE)
    }

    proof fn lemma_black_white_in_bounds() {
    }
}

} // verus!
