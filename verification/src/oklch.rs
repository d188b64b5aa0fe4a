//! The polar restatement of Oklab: lightness, chroma magnitude and
//! hue.
//!
//! Going to Oklab multiplies the chroma by the cosine and sine of the
//! hue. Coming from Oklab, the chroma is the fixed-point square root
//! of `a^2 + b^2`, and the hue is recovered by folding the opponent
//! pair into the first half quadrant and bisecting the arc tangent;
//! when the chroma is zero the hue is meaningless and zero degrees is
//! produced by convention, so the type stays total.

use vstd::prelude::*;
use crate::ColorSpace;
use crate::approx_in_range;
use crate::approx_in_range_spec;
use crate::fixed::SCALE;
use crate::fixed::fmul_small;
use crate::fixed::fmul_spec;
use crate::fixed::iabs;
use crate::fixed::lemma_fmul_bound;
use crate::fixed::lemma_fmul_nonneg;
use crate::fixed::sqrt_fix;
use crate::fixed::sqrt_fix_exec;
use crate::hue::HALF_TURN;
use crate::hue::Hue;
use crate::linear_rgb::CHAN_DOM_CAP;
use crate::oklab::Oklab;
use crate::trig::QUARTER_TURN;
use crate::trig::atan_bracket;
use crate::trig::atan_ratio;
use crate::trig::cos_fix;
use crate::trig::sin_cos;
use crate::trig::sin_fix;

verus! {

/// A color from the Oklch color space, in fixed-point components
/// scaled by [`SCALE`](crate::SCALE).
#[derive(Clone, Copy, Debug, PartialEq, Eq, Structural)]
pub struct Oklch {
    /// Perceived lightness, nominally in `[0, 1]`.
    pub l: i64,
    /// Chroma magnitude, nonnegative.
    pub c: i64,
    /// The hue angle.
    pub h: Hue,
}

/// The stored hue angle that an opponent pair folds to: the bisected
/// base angle placed into the quadrant the pair's signs select.
pub open spec fn placed_hue(a: int, b: int, beta: int) -> int {
    if a >= 0 && b >= 0 {
        beta
    } else if a < 0 && b >= 0 {
        (HALF_TURN as int) - beta
    } else if a >= 0 && b < 0 {
        -beta
    } else if beta == 0 {
        HALF_TURN as int
    } else {
        beta - (HALF_TURN as int)
    }
}

/// The stored hue `u` names the direction of the opponent pair
/// `(a, b)`: some bisected base angle, folded into the first half
/// quadrant over the pair's magnitudes, places at `u`. A pair of zero
/// magnitude takes hue zero by convention.
pub open spec fn hue_of_opponents(a: int, b: int, u: int) -> bool {
    let am = iabs(a);
    let bm = iabs(b);
    if am == 0 && bm == 0 {
        u == 0
    } else if bm <= am {
        exists|t: int| #[trigger] atan_bracket(t, bm, am) && u == placed_hue(a, b, t)
    } else {
        exists|t: int|
            #[trigger] atan_bracket(t, am, bm) && u == placed_hue(
                a,
                b,
                (QUARTER_TURN as int) - t,
            )
    }
}

impl Oklch {
    /// Every component is within the magnitude cap the polar maps
    /// accept.
    pub open spec fn in_dom(self) -> bool {
        &&& -(CHAN_DOM_CAP as int) <= self.l as int <= CHAN_DOM_CAP as int
        &&& -(CHAN_DOM_CAP as int) <= self.c as int <= CHAN_DOM_CAP as int
        &&& self.h.wf()
    }

    /// Unfold this polar color into Oklab: `a` is the chroma times
    /// the hue's cosine, `b` the chroma times its sine.
    pub fn to_oklab(self) -> (r: Oklab)
        requires
            self.in_dom(),
        ensures
            r.l == self.l,
            r.a == fmul_spec(self.c as int, cos_fix(self.h.unnormalized())),
            r.b == fmul_spec(self.c as int, sin_fix(self.h.unnormalized())),
    {
        let (sv, cv) = sin_cos(self.h.unnormalized_exec());
        proof {
            lemma_fmul_bound(self.c as int, cv as int, 200_000_000, 260_000_000);
            lemma_fmul_bound(self.c as int, sv as int, 200_000_000, 240_000_000);
        }
        Oklab { l: self.l, a: fmul_small(self.c, cv), b: fmul_small(self.c, sv) }
    }

    /// Fold an Oklab color into polar form: the chroma is the
    /// fixed-point square root of `a^2 + b^2`, the hue names the
    /// pair's direction, and a zero pair takes hue zero.
    pub fn from_oklab(x: Oklab) -> (r: Oklch)
        requires
            -(CHAN_DOM_CAP as int) <= x.a as int <= CHAN_DOM_CAP as int,
            -(CHAN_DOM_CAP as int) <= x.b as int <= CHAN_DOM_CAP as int,
        ensures
            r.l == x.l,
            r.c == sqrt_fix(fmul_spec(x.a as int, x.a as int) + fmul_spec(x.b as int, x.b as int)),
            0 <= r.c,
            r.h.wf(),
            hue_of_opponents(x.a as int, x.b as int, r.h.unnormalized()),
    {
        let am: i64 = if x.a < 0 {
            -x.a
        } else {
            x.a
        };
        let bm: i64 = if x.b < 0 {
            -x.b
        } else {
            x.b
        };
        proof {
            lemma_fmul_bound(x.a as int, x.a as int, 200_000_000, 200_000_000);
            lemma_fmul_bound(x.b as int, x.b as int, 200_000_000, 200_000_000);
            lemma_fmul_nonneg(am as int, am as int);
            lemma_fmul_nonneg(bm as int, bm as int);
            assert((x.a as int) * (x.a as int) == (am as int) * (am as int)) by (nonlinear_arith)
                requires
                    am as int == iabs(x.a as int),
            ;
            assert((x.b as int) * (x.b as int) == (bm as int) * (bm as int)) by (nonlinear_arith)
                requires
                    bm as int == iabs(x.b as int),
            ;
        }
        let v: i64 = fmul_small(x.a, x.a) + fmul_small(x.b, x.b);
        let c: i64 = sqrt_fix_exec(v);
        let h: Hue = hue_of_pair(x.a, x.b, am, bm);
        Oklch { l: x.l, c, h }
    }
}

/// Recover the hue of an opponent pair from its signs and magnitudes.
fn hue_of_pair(a: i64, b: i64, am: i64, bm: i64) -> (h: Hue)
    requires
        0 <= am <= 200_000_000,
        0 <= bm <= 200_000_000,
        am as int == iabs(a as int),
        bm as int == iabs(b as int),
    ensures
        h.wf(),
        hue_of_opponents(a as int, b as int, h.unnormalized()),
{
    if am == 0 && bm == 0 {
        return Hue::zero();
    }
    let beta: i64 = if bm <= am {
        atan_ratio(bm, am)
    } else {
        QUARTER_TURN - atan_ratio(am, bm)
    };
    let u: i64 = if a >= 0 && b >= 0 {
        beta
    } else if a < 0 && b >= 0 {
        HALF_TURN - beta
    } else if a >= 0 {
        -beta
    } else if beta == 0 {
        HALF_TURN
    } else {
        beta - HALF_TURN
    };
    Hue::from_unnormalized(u)
}

impl ColorSpace for Oklch {
    open spec fn black_spec() -> Oklch {
        Oklch { l: 0, c: 0, h: Hue::zero_spec() }
    }

    open spec fn white_spec() -> Oklch {
        Oklch { l: SCALE, c: 0, h: Hue::zero_spec() }
    }

    /// Lightness is checked against `[0, 1]` and the chroma against
    /// nonnegativity, each with tolerance; every hue is in bounds.
    open spec fn in_bounds_spec(self) -> bool {
        &&& approx_in_range_spec(self.l as int, 0, SCALE as int)
        &&& -(crate::BOUNDS_TOLERANCE as int) <= self.c as int
    }

    fn black() -> (c: Oklch) {
        Oklch { l: 0, c: 0, h: Hue::zero() }
    }

    fn white() -> (c: Oklch) {
        Oklch { l: SCALE, c: 0, h: Hue::zero() }
    }

    fn in_bounds(self) -> (c: bool) {
        approx_in_range(self.l, 0, SCALE) && -crate::BOUNDS_TOLERANCE <= self.c
    }

    proof fn lemma_black_white_in_bounds() {
    }
}

} // verus!
