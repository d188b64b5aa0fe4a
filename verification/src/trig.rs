//! The trigonometric kernel used by the polar Oklch variant.
//!
//! Sine and cosine are fixed-point Taylor polynomials of degree 11 and
//! 10, evaluated after the angle is folded into the quarter turn
//! around zero where they converge fast; over the whole turn they stay
//! within about `8 * 10^-7` of the real functions. The arc tangent is
//! not a formula but a bisection: it returns the largest fixed-point
//! degree angle (within the first half quadrant) whose tangent does
//! not exceed the given ratio, stated exactly as a bracket over the
//! sine and cosine polynomials.

use vstd::prelude::*;
use vstd::arithmetic::mul::lemma_mul_inequality;
use vstd::arithmetic::mul::lemma_mul_nonnegative;
use crate::fixed::SCALE;
use crate::fixed::fmul_small;
use crate::fixed::fmul_spec;
use crate::fixed::lemma_fmul_bound;
use crate::hue::HALF_TURN;

verus! {

/// One radian's worth of fixed-point degrees (0.01745329 scaled).
pub const RAD_PER_DEG: i64 = 1_745_329;

/// 90 degrees in fixed-point representation.
pub const QUARTER_TURN: i64 = 90 * SCALE;

/// The angle bisection's exclusive upper bound: 46 degrees.
pub const ATAN_LIMIT: i64 = 46 * SCALE;

/// The sine Taylor polynomial over fixed-point radians, for angles
/// within a quarter turn of zero.
pub open spec fn sin_poly(t: int) -> int {
    let u = fmul_spec(t, t);
    let a9 = 276 - fmul_spec(u, 3);
    let a7 = 19841 - fmul_spec(u, a9);
    let a5 = 833333 - fmul_spec(u, a7);
    let a3 = 16666667 - fmul_spec(u, a5);
    let a1 = (SCALE as int) - fmul_spec(u, a3);
    fmul_spec(t, a1)
}

/// The cosine Taylor polynomial over fixed-point radians, for angles
/// within a quarter turn of zero.
pub open spec fn cos_poly(t: int) -> int {
    let u = fmul_spec(t, t);
    let a8 = 2480 - fmul_spec(u, 28);
    let a6 = 138889 - fmul_spec(u, a8);
    let a4 = 4166667 - fmul_spec(u, a6);
    let a2 = 50000000 - fmul_spec(u, a4);
    (SCALE as int) - fmul_spec(u, a2)
}

/// A fixed-point degree angle in fixed-point radians.
pub open spec fn rad_of_deg(d: int) -> int {
    fmul_spec(d, RAD_PER_DEG as int)
}

/// The sine of a stored hue angle (fixed-point degrees within the
/// half turn of zero): the angle is folded into the quarter turn
/// around zero before the polynomial applies.
pub open spec fn sin_fix(d: int) -> int {
    if d > QUARTER_TURN as int {
        sin_poly(rad_of_deg((HALF_TURN as int) - d))
    } else if d < -(QUARTER_TURN as int) {
        -sin_poly(rad_of_deg(d + (HALF_TURN as int)))
    } else {
        sin_poly(rad_of_deg(d))
    }
}

/// The cosine of a stored hue angle, folded like [`sin_fix`].
pub open spec fn cos_fix(d: int) -> int {
    if d > QUARTER_TURN as int {
        -cos_poly(rad_of_deg((HALF_TURN as int) - d))
    } else if d < -(QUARTER_TURN as int) {
        -cos_poly(rad_of_deg(d + (HALF_TURN as int)))
    } else {
        cos_poly(rad_of_deg(d))
    }
}

fn sin_poly_exec(t: i64) -> (r: i64)
    requires
        -158_000_000 <= t <= 158_000_000,
    ensures
        r == sin_poly(t as int),
        -240_000_000 <= r <= 240_000_000,
{
    let u: i64 = fmul_small(t, t);
    proof {
        lemma_fmul_bound(t as int, t as int, 158_000_000, 158_000_000);
        lemma_fmul_bound(u as int, 3, 250_000_000, 3);
    }
    let a9: i64 = 276 - fmul_small(u, 3);
    proof {
        lemma_fmul_bound(u as int, a9 as int, 250_000_000, 300);
    }
    let a7: i64 = 19841 - fmul_small(u, a9);
    proof {
        lemma_fmul_bound(u as int, a7 as int, 250_000_000, 21_000);
    }
    let a5: i64 = 833333 - fmul_small(u, a7);
    proof {
        lemma_fmul_bound(u as int, a5 as int, 250_000_000, 900_000);
    }
    let a3: i64 = 16666667 - fmul_small(u, a5);
    proof {
        lemma_fmul_bound(u as int, a3 as int, 250_000_000, 19_000_000);
    }
    let a1: i64 = SCALE - fmul_small(u, a3);
    proof {
        lemma_fmul_bound(t as int, a1 as int, 158_000_000, 150_000_000);
    }
    fmul_small(t, a1)
}

fn cos_poly_exec(t: i64) -> (r: i64)
    requires
        -158_000_000 <= t <= 158_000_000,
    ensures
        r == cos_poly(t as int),
        -260_000_000 <= r <= 260_000_000,
{
    let u: i64 = fmul_small(t, t);
    proof {
        lemma_fmul_bound(t as int, t as int, 158_000_000, 158_000_000);
        lemma_fmul_bound(u as int, 28, 250_000_000, 28);
    }
    let a8: i64 = 2480 - fmul_small(u, 28);
    proof {
        lemma_fmul_bound(u as int, a8 as int, 250_000_000, 2600);
    }
    let a6: i64 = 138889 - fmul_small(u, a8);
    proof {
        lemma_fmul_bound(u as int, a6 as int, 250_000_000, 150_000);
    }
    let a4: i64 = 4166667 - fmul_small(u, a6);
    proof {
        lemma_fmul_bound(u as int, a4 as int, 250_000_000, 4_600_000);
    }
    let a2: i64 = 50000000 - fmul_small(u, a4);
    proof {
        lemma_fmul_bound(u as int, a2 as int, 250_000_000, 62_000_000);
    }
    SCALE - fmul_small(u, a2)
}

/// Evaluate the sine and cosine of a stored hue angle.
pub fn sin_cos(d: i64) -> (sc: (i64, i64))
    requires
        -HALF_TURN <= d <= HALF_TURN,
    ensures
        sc.0 == sin_fix(d as int),
        sc.1 == cos_fix(d as int),
        -240_000_000 <= sc.0 <= 240_000_000,
        -260_000_000 <= sc.1 <= 260_000_000,
{
    if d > QUARTER_TURN {
        proof {
            lemma_fmul_bound((HALF_TURN - d) as int, RAD_PER_DEG as int, 9_000_000_000, 1_745_329);
        }
        let t: i64 = fmul_small(HALF_TURN - d, RAD_PER_DEG);
        let s: i64 = sin_poly_exec(t);
        let c: i64 = cos_poly_exec(t);
        (s, -c)
    } else if d < -QUARTER_TURN {
        proof {
            lemma_fmul_bound((d + HALF_TURN) as int, RAD_PER_DEG as int, 9_000_000_000, 1_745_329);
        }
        let t: i64 = fmul_small(d + HALF_TURN, RAD_PER_DEG);
        let s: i64 = sin_poly_exec(t);
        let c: i64 = cos_poly_exec(t);
        (-s, -c)
    } else {
        proof {
            lemma_fmul_bound(d as int, RAD_PER_DEG as int, 9_000_000_000, 1_745_329);
        }
        let t: i64 = fmul_small(d, RAD_PER_DEG);
        (sin_poly_exec(t), cos_poly_exec(t))
    }
}

/// The tangent of the angle `t` (in fixed-point degrees) does not
/// exceed the ratio `m / mx`, compared exactly through the sine and
/// cosine polynomials.
pub open spec fn atan_pred(t: int, m: int, mx: int) -> bool {
    sin_fix(t) * mx <= cos_fix(t) * m
}

/// `t` is the boundary angle for the ratio `m / mx`: its tangent is
/// still within the ratio, the next representable angle's is not.
pub open spec fn atan_bracket(t: int, m: int, mx: int) -> bool {
    &&& 0 <= t < ATAN_LIMIT as int
    &&& atan_pred(t, m, mx)
    &&& !atan_pred(t + 1, m, mx)
}

/// Find the boundary angle whose tangent matches `m / mx`, by
/// bisection over the first half quadrant. The ratio must be at most
/// one: `m <= mx`.
pub fn atan_ratio(m: i64, mx: i64) -> (t: i64)
    requires
        0 <= m <= mx,
        1 <= mx <= 200_000_000,
    ensures
        atan_bracket(t as int, m as int, mx as int),
{
    proof {
        lemma_atan_bisection_anchors(m as int, mx as int);
    }
    let mut lo: i64 = 0;
    let mut hi: i64 = ATAN_LIMIT;
    while hi - lo > 1
        invariant
            0 <= m <= mx,
            1 <= mx <= 200_000_000,
            0 <= lo < hi <= ATAN_LIMIT,
            atan_pred(lo as int, m as int, mx as int),
            !atan_pred(hi as int, m as int, mx as int),
        decreases hi - lo,
    {
        let mid: i64 = lo + (((hi - lo) as u64 / 2) as i64);
        let (sv, cv) = sin_cos(mid);
        proof {
            assert(-60_000_000_000_000_000int <= (sv as int) * (mx as int)
                <= 60_000_000_000_000_000int) by (nonlinear_arith)
                requires
                    -240_000_000 <= sv as int <= 240_000_000,
                    0 <= mx as int <= 200_000_000,
            ;
            assert(-60_000_000_000_000_000int <= (cv as int) * (m as int)
                <= 60_000_000_000_000_000int) by (nonlinear_arith)
                requires
                    -260_000_000 <= cv as int <= 260_000_000,
                    0 <= m as int <= 200_000_000,
            ;
        }
        if (sv as i128) * (mx as i128) <= (cv as i128) * (m as i128) {
            lo = mid;
        } else {
            hi = mid;
        }
    }
    lo
}

/// The polynomials at zero degrees: sine zero, cosine one.
proof fn lemma_eval_trig_zero()
    ensures
        sin_fix(0) == 0,
        cos_fix(0) == SCALE as int,
{
    assert forall|x: int| fmul_spec(0, x) == 0 by {
        assert(0 * x == 0);
    }
    assert(rad_of_deg(0) == 0);
    assert(sin_poly(0) == 0);
    assert(cos_poly(0) == SCALE as int);
}

/// The polynomials at 46 degrees, step by step.
#[verifier::rlimit(50)]
proof fn lemma_eval_trig_46()
    ensures
        sin_fix(ATAN_LIMIT as int) == 71_933_972,
        cos_fix(ATAN_LIMIT as int) == 69_465_846,
{
    let t = rad_of_deg(4_600_000_000);
    assert(t == 80_285_134);
    let u = fmul_spec(t, t);
    assert(u == 64_457_027);
    assert(fmul_spec(u, 3) == 1);
    assert(fmul_spec(u, 275) == 177);
    assert(fmul_spec(u, 19664) == 12_674);
    assert(fmul_spec(u, 820_659) == 528_972);
    assert(fmul_spec(u, 16_137_695) == 10_401_878);
    assert(fmul_spec(t, 89_598_122) == 71_933_972);
    assert(sin_poly(t) == 71_933_972);
    assert(fmul_spec(u, 28) == 18);
    assert(fmul_spec(u, 2462) == 1586);
    assert(fmul_spec(u, 137_303) == 88_501);
    assert(fmul_spec(u, 4_078_166) == 2_628_664);
    assert(fmul_spec(u, 47_371_336) == 30_534_154);
    assert(cos_poly(t) == 69_465_846);
    assert(sin_fix(ATAN_LIMIT as int) == sin_poly(t));
    assert(cos_fix(ATAN_LIMIT as int) == cos_poly(t));
}

/// At zero degrees the tangent is within any ratio; at 46 degrees it
/// exceeds every ratio of at most one. These anchor the bisection.
proof fn lemma_atan_bisection_anchors(m: int, mx: int)
    requires
        0 <= m <= mx,
        1 <= mx <= 200_000_000,
    ensures
        atan_pred(0, m, mx),
        !atan_pred(ATAN_LIMIT as int, m, mx),
{
    lemma_eval_trig_zero();
    assert(atan_pred(0, m, mx)) by {
        lemma_mul_nonnegative(SCALE as int, m);
        assert(sin_fix(0) * mx == 0) by (nonlinear_arith)
            requires
                sin_fix(0) == 0,
        ;
    }
    lemma_eval_trig_46();
    assert(!atan_pred(ATAN_LIMIT as int, m, mx)) by {
        lemma_mul_inequality(m, mx, 69_465_846);
        assert(69_465_846 * m <= 69_465_846 * mx) by (nonlinear_arith)
            requires
                m <= mx,
        ;
        assert(69_465_846 * mx < 71_933_972 * mx) by (nonlinear_arith)
            requires
                1 <= mx,
        ;
    }
}

} // verus!
