//! Fixed-point scalar arithmetic underlying every color component.
//!
//! A component value is an `i64` holding the real quantity scaled by
//! [`SCALE`] (eight decimal fraction digits), so `1.0` is stored as
//! `100_000_000`. All transforms in this crate are defined exactly over
//! this representation: products round toward zero, and roots are the
//! largest representable value whose power does not exceed the operand.

use vstd::prelude::*;
use vstd::arithmetic::div_mod::lemma_div_is_ordered;
use vstd::arithmetic::div_mod::lemma_div_multiples_vanish;
use vstd::arithmetic::mul::lemma_mul_nonnegative;
use vstd::arithmetic::power::pow;

verus! {

/// One whole unit in the fixed-point encoding.
pub const SCALE: i64 = 100_000_000;

/// Largest magnitude the product of two `fmul` operands may reach.
pub const FMUL_PRODUCT_CAP: i128 = 400_000_000_000_000_000_000_000_000;

/// The fixed-point product: the mathematical product of two scaled
/// values, scaled back down with the quotient rounded toward zero.
pub open spec fn fmul_spec(a: int, b: int) -> int {
    if a * b >= 0 {
        (a * b) / (SCALE as int)
    } else {
        -((-(a * b)) / (SCALE as int))
    }
}

/// Magnitude of an integer.
pub open spec fn iabs(x: int) -> int {
    if x < 0 {
        -x
    } else {
        x
    }
}

proof fn lemma_abs_mul(a: int, b: int)
    ensures
        iabs(a) * iabs(b) == iabs(a * b),
{
    assert(iabs(a) * iabs(b) == iabs(a * b)) by (nonlinear_arith);
}

/// Multiply two fixed-point values, rounding toward zero.
pub fn fmul(a: i64, b: i64) -> (r: i64)
    requires
        -FMUL_PRODUCT_CAP <= (a as int) * (b as int) <= FMUL_PRODUCT_CAP,
    ensures
        r == fmul_spec(a as int, b as int),
{
    let neg: bool = (a < 0) != (b < 0);
    let am: u128 = if a < 0 {
        (-(a as i128)) as u128
    } else {
        a as u128
    };
    let bm: u128 = if b < 0 {
        (-(b as i128)) as u128
    } else {
        b as u128
    };
    proof {
        assert(am == iabs(a as int) && bm == iabs(b as int));
        lemma_abs_mul(a as int, b as int);
    }
    let m: u128 = am * bm;
    let q: u128 = m / 100_000_000u128;
    proof {
        assert(m == iabs((a as int) * (b as int)));
        assert(q == iabs((a as int) * (b as int)) / (SCALE as int));
        lemma_div_is_ordered(
            iabs((a as int) * (b as int)),
            FMUL_PRODUCT_CAP as int,
            SCALE as int,
        );
        assert(q <= (FMUL_PRODUCT_CAP as int) / (SCALE as int));
    }
    if neg {
        let qi: i64 = q as i64;
        proof {
            if (a as int) * (b as int) >= 0 {
                assert((a as int) * (b as int) == 0) by (nonlinear_arith)
                    requires
                        ((a < 0) != (b < 0)) && (a as int) * (b as int) >= 0,
                ;
            }
        }
        -qi
    } else {
        proof {
            if (a as int) * (b as int) < 0 {
                assert(false) by (nonlinear_arith)
                    requires
                        ((a < 0) == (b < 0)) && (a as int) * (b as int) < 0,
                ;
            }
        }
        q as i64
    }
}

/// The fixed-point product is bounded by the product of the operands'
/// magnitude bounds, scaled down.
pub proof fn lemma_fmul_bound(a: int, b: int, am: int, bm: int)
    requires
        -am <= a <= am,
        -bm <= b <= bm,
        0 <= am,
        0 <= bm,
    ensures
        -((am * bm) / (SCALE as int)) <= fmul_spec(a, b) <= (am * bm) / (SCALE as int),
{
    lemma_abs_mul(a, b);
    assert(iabs(a) * iabs(b) <= am * bm) by (nonlinear_arith)
        requires
            0 <= iabs(a) <= am && 0 <= iabs(b) <= bm,
    ;
    lemma_div_is_ordered(iabs(a * b), am * bm, SCALE as int);
    if a * b >= 0 {
        lemma_div_is_ordered(0, a * b, SCALE as int);
    } else {
        lemma_div_is_ordered(0, -(a * b), SCALE as int);
    }
}

/// Multiply two fixed-point values of moderate magnitude, rounding
/// toward zero; the magnitude caps discharge the product bound.
pub fn fmul_small(a: i64, b: i64) -> (r: i64)
    requires
        -10_000_000_000 <= a <= 10_000_000_000,
        -2_000_000_000 <= b <= 2_000_000_000,
    ensures
        r == fmul_spec(a as int, b as int),
{
    proof {
        lemma_abs_mul(a as int, b as int);
        assert(iabs(a as int) * iabs(b as int) <= 20_000_000_000_000_000_000int)
            by (nonlinear_arith)
            requires
                0 <= iabs(a as int) <= 10_000_000_000int,
                0 <= iabs(b as int) <= 2_000_000_000int,
        ;
    }
    fmul(a, b)
}

/// The fixed-point product of nonnegative values is nonnegative.
pub proof fn lemma_fmul_nonneg(a: int, b: int)
    requires
        0 <= a,
        0 <= b,
    ensures
        0 <= fmul_spec(a, b),
{
    lemma_mul_nonnegative(a, b);
    lemma_div_is_ordered(0, a * b, SCALE as int);
}

/// Iterated fixed-point power: `pow_fix(b, n)` is `b` multiplied by
/// itself `n` times under `fmul_spec`, starting from one whole unit.
pub open spec fn pow_fix(b: int, n: nat) -> int
    decreases n,
{
    if n == 0 {
        SCALE as int
    } else {
        fmul_spec(b, pow_fix(b, (n - 1) as nat))
    }
}

/// A nonnegative base gives a nonnegative power.
pub proof fn lemma_pow_fix_nonneg(b: int, n: nat)
    requires
        0 <= b,
    ensures
        0 <= pow_fix(b, n),
    decreases n,
{
    if n > 0 {
        lemma_pow_fix_nonneg(b, (n - 1) as nat);
        lemma_mul_nonnegative(b, pow_fix(b, (n - 1) as nat));
        lemma_div_is_ordered(0, b * pow_fix(b, (n - 1) as nat), SCALE as int);
    }
}

/// A base of at most `m` whole units gives a power of at most `m^n`
/// whole units.
pub proof fn lemma_pow_fix_bound(b: int, m: int, n: nat)
    requires
        0 <= b <= m * (SCALE as int),
        1 <= m,
    ensures
        0 <= pow_fix(b, n) <= pow(m, n) * (SCALE as int),
    decreases n,
{
    let s = SCALE as int;
    vstd::arithmetic::power::lemma_pow_positive(m, n);
    if n == 0 {
        assert(pow(m, 0nat) == 1) by {
            vstd::arithmetic::power::lemma_pow0(m);
        }
    } else {
        lemma_pow_fix_bound(b, m, (n - 1) as nat);
        lemma_pow_fix_nonneg(b, n);
        let p = pow_fix(b, (n - 1) as nat);
        let pw = pow(m, (n - 1) as nat);
        vstd::arithmetic::power::lemma_pow_positive(m, (n - 1) as nat);
        lemma_mul_nonnegative(b, p);
        assert(b * p <= (m * pw * s) * s) by (nonlinear_arith)
            requires
                0 <= b <= m * s,
                0 <= p <= pw * s,
                0 <= s,
                0 <= m,
                0 <= pw,
        ;
        lemma_div_is_ordered(b * p, (m * pw * s) * s, s);
        lemma_div_multiples_vanish(m * pw * s, s);
        assert(pow(m, n) == m * pw) by {
            vstd::arithmetic::power::lemma_pow1(m);
            vstd::arithmetic::power::lemma_pow_adds(m, 1, (n - 1) as nat);
        }
    }
}

/// The fixed-point power is monotone in its base.
pub proof fn lemma_pow_fix_mono(a: int, b: int, n: nat)
    requires
        0 <= a <= b,
    ensures
        pow_fix(a, n) <= pow_fix(b, n),
    decreases n,
{
    if n > 0 {
        lemma_pow_fix_mono(a, b, (n - 1) as nat);
        lemma_pow_fix_nonneg(a, (n - 1) as nat);
        lemma_pow_fix_nonneg(b, (n - 1) as nat);
        let pa = pow_fix(a, (n - 1) as nat);
        let pb = pow_fix(b, (n - 1) as nat);
        lemma_mul_nonnegative(a, pa);
        assert(a * pa <= b * pb) by (nonlinear_arith)
            requires
                0 <= a <= b && 0 <= pa <= pb,
        ;
        lemma_div_is_ordered(a * pa, b * pb, SCALE as int);
    }
}

/// `r` is the fixed-point `n`-th root of `v`: the largest value whose
/// `n`-th fixed power does not exceed `v`.
pub open spec fn is_root_fix(r: int, v: int, n: nat) -> bool {
    &&& 0 <= r
    &&& pow_fix(r, n) <= v
    &&& v < pow_fix(r + 1, n)
}

/// The fixed-point `n`-th root of `v`.
pub open spec fn root_fix(v: int, n: nat) -> int {
    choose|r: int| is_root_fix(r, v, n)
}

/// At most one value satisfies the root characterization.
pub proof fn lemma_root_fix_unique(r1: int, r2: int, v: int, n: nat)
    requires
        is_root_fix(r1, v, n),
        is_root_fix(r2, v, n),
    ensures
        r1 == r2,
{
    if r1 < r2 {
        lemma_pow_fix_mono(r1 + 1, r2, n);
    }
    if r2 < r1 {
        lemma_pow_fix_mono(r2 + 1, r1, n);
    }
}

/// Evaluate the fixed-point power of a nonnegative base.
pub fn pow_fix_exec(b: i64, n: u32) -> (r: i64)
    requires
        0 <= b <= 6 * SCALE,
        n <= 12,
    ensures
        r == pow_fix(b as int, n as nat),
{
    let mut acc: i64 = SCALE;
    let mut i: u32 = 0;
    proof {
        lemma_pow_fix_bound(b as int, 6, 0);
    }
    while i < n
        invariant
            0 <= b <= 6 * SCALE,
            i <= n <= 12,
            acc == pow_fix(b as int, i as nat),
            0 <= acc <= pow(6, i as nat) * (SCALE as int),
        decreases n - i,
    {
        proof {
            vstd::arithmetic::power::lemma_pow_increases(6, i as nat, 12);
            assert(pow(6, 12) == 2176782336) by {
                reveal_with_fuel(vstd::arithmetic::power::pow, 13);
            }
            assert(acc as int <= 217_678_233_600_000_000int);
            assert((b as int) * (acc as int) <= 400_000_000_000_000_000_000_000_000int)
                by (nonlinear_arith)
                requires
                    0 <= b as int <= 600_000_000int,
                    0 <= acc as int <= 217_678_233_600_000_000int,
            ;
            lemma_mul_nonnegative(b as int, acc as int);
        }
        acc = fmul(b, acc);
        i = i + 1;
        proof {
            lemma_pow_fix_bound(b as int, 6, i as nat);
        }
    }
    acc
}

/// Find the fixed-point `n`-th root of `v` by bisection. The caller
/// supplies an exclusive upper bound `hi0` whose power already exceeds
/// `v`.
pub fn nth_root_fix(v: i64, n: u32, hi0: i64) -> (r: i64)
    requires
        1 <= n <= 12,
        0 <= v,
        1 <= hi0 <= 6 * SCALE + 1,
        pow_fix(hi0 as int, n as nat) > v,
    ensures
        is_root_fix(r as int, v as int, n as nat),
        r == root_fix(v as int, n as nat),
        0 <= r < hi0,
{
    let mut lo: i64 = 0;
    let mut hi: i64 = hi0;
    proof {
        assert(pow_fix(0, n as nat) == fmul_spec(0, pow_fix(0, (n - 1) as nat)));
        assert(0 * pow_fix(0, (n - 1) as nat) == 0);
        assert(pow_fix(0, n as nat) == 0);
    }
    while hi - lo > 1
        invariant
            1 <= n <= 12,
            0 <= lo < hi <= hi0 <= 6 * SCALE + 1,
            pow_fix(lo as int, n as nat) <= v,
            v < pow_fix(hi as int, n as nat),
        decreases hi - lo,
    {
        let mid: i64 = lo + (((hi - lo) as u64 / 2) as i64);
        proof {
            assert(lo < mid < hi);
        }
        let p: i64 = pow_fix_exec(mid, n);
        if p <= v {
            lo = mid;
        } else {
            hi = mid;
        }
    }
    proof {
        assert(hi == lo + 1);
        assert(is_root_fix(lo as int, v as int, n as nat));
        let w = root_fix(v as int, n as nat);
        assert(is_root_fix(w, v as int, n as nat)) by {
            assert(exists|r: int| is_root_fix(r, v as int, n as nat)) by {
                assert(is_root_fix(lo as int, v as int, n as nat));
            }
        }
        lemma_root_fix_unique(lo as int, w, v as int, n as nat);
    }
    lo
}

/// The fixed-point cube of a value, rounding toward zero at each step.
pub open spec fn cube_fix(v: int) -> int {
    fmul_spec(v, fmul_spec(v, v))
}

/// Cube a fixed-point value.
pub fn cube(v: i64) -> (r: i64)
    requires
        -400_000_000 <= v <= 400_000_000,
    ensures
        r == cube_fix(v as int),
        -6_400_000_000 <= r <= 6_400_000_000,
{
    proof {
        lemma_fmul_bound(v as int, v as int, 400_000_000, 400_000_000);
        assert((v as int) * (v as int) <= 160_000_000_000_000_000int) by (nonlinear_arith)
            requires
                -400_000_000 <= v as int <= 400_000_000,
        ;
        assert(-160_000_000_000_000_000int <= (v as int) * (v as int)) by (nonlinear_arith);
    }
    let sq: i64 = fmul(v, v);
    proof {
        lemma_fmul_bound(v as int, sq as int, 400_000_000, 1_600_000_000);
        assert(-640_000_000_000_000_000int <= (v as int) * (sq as int)
            <= 640_000_000_000_000_000int) by (nonlinear_arith)
            requires
                -400_000_000 <= v as int <= 400_000_000,
                -1_600_000_000 <= sq as int <= 1_600_000_000,
        ;
    }
    fmul(v, sq)
}

/// `r` is the floor of the real square root of the fixed-point value
/// `v`: in unscaled terms, `r^2 <= v * SCALE < (r + 1)^2`.
pub open spec fn is_sqrt_fix(r: int, v: int) -> bool {
    &&& 0 <= r
    &&& r * r <= v * (SCALE as int)
    &&& v * (SCALE as int) < (r + 1) * (r + 1)
}

/// The fixed-point square root: the floor of the real square root.
pub open spec fn sqrt_fix(v: int) -> int {
    choose|r: int| #[trigger] is_sqrt_fix(r, v)
}

/// At most one value satisfies the square root characterization.
pub proof fn lemma_sqrt_fix_unique(r1: int, r2: int, v: int)
    requires
        is_sqrt_fix(r1, v),
        is_sqrt_fix(r2, v),
    ensures
        r1 == r2,
{
    assert(r1 == r2) by (nonlinear_arith)
        requires
            0 <= r1 && 0 <= r2,
            r1 * r1 <= v * (SCALE as int) < (r1 + 1) * (r1 + 1),
            r2 * r2 <= v * (SCALE as int) < (r2 + 1) * (r2 + 1),
    ;
}

/// The fixed-point square root, by bisection.
pub fn sqrt_fix_exec(v: i64) -> (r: i64)
    requires
        0 <= v <= 900_000_000,
    ensures
        is_sqrt_fix(r as int, v as int),
        r == sqrt_fix(v as int),
        0 <= r <= 300_000_000,
{
    let mut lo: i64 = 0;
    let mut hi: i64 = 300_000_001;
    proof {
        assert(0 * 0 <= (v as int) * (SCALE as int) < 300_000_001int * 300_000_001int)
            by (nonlinear_arith)
            requires
                0 <= v as int <= 900_000_000int,
        ;
    }
    while hi - lo > 1
        invariant
            0 <= v <= 900_000_000,
            0 <= lo < hi <= 300_000_001,
            (lo as int) * (lo as int) <= (v as int) * (SCALE as int),
            (v as int) * (SCALE as int) < (hi as int) * (hi as int),
        decreases hi - lo,
    {
        let mid: i64 = lo + (((hi - lo) as u64 / 2) as i64);
        proof {
            assert(lo < mid < hi);
            assert((mid as int) * (mid as int) < 300_000_001int * 300_000_001int)
                by (nonlinear_arith)
                requires
                    0 <= (mid as int) < 300_000_001int,
            ;
        }
        let sq: u128 = (mid as u128) * (mid as u128);
        let target: u128 = (v as u128) * 100_000_000u128;
        if sq <= target {
            lo = mid;
        } else {
            hi = mid;
        }
    }
    proof {
        let w = sqrt_fix(v as int);
        assert(is_sqrt_fix(w, v as int)) by {
            assert(exists|r: int| is_sqrt_fix(r, v as int)) by {
                assert(is_sqrt_fix(lo as int, v as int));
            }
        }
        lemma_sqrt_fix_unique(lo as int, w, v as int);
    }
    lo
}

/// `r` is the floor of the real cube root of the nonnegative
/// fixed-point value `v`: in unscaled terms,
/// `r^3 <= v * SCALE^2 < (r + 1)^3`.
pub open spec fn is_cbrt_mag(r: int, v: int) -> bool {
    &&& 0 <= r
    &&& r * r * r <= v * (SCALE as int) * (SCALE as int)
    &&& v * (SCALE as int) * (SCALE as int) < (r + 1) * (r + 1) * (r + 1)
}

/// The chosen magnitude root that the signed cube root is built from.
pub open spec fn cbrt_mag_of(v: int) -> int {
    choose|r: int| #[trigger] is_cbrt_mag(r, v)
}

/// The fixed-point signed cube root: the floor of the real cube root
/// of the magnitude, with the operand's sign.
pub open spec fn cbrt_fix(v: int) -> int {
    if v >= 0 {
        cbrt_mag_of(v)
    } else {
        -cbrt_mag_of(-v)
    }
}

/// At most one value satisfies the cube root characterization.
pub proof fn lemma_cbrt_mag_unique(r1: int, r2: int, v: int)
    requires
        is_cbrt_mag(r1, v),
        is_cbrt_mag(r2, v),
    ensures
        r1 == r2,
{
    assert(r1 == r2) by (nonlinear_arith)
        requires
            0 <= r1 && 0 <= r2,
            r1 * r1 * r1 <= v * (SCALE as int) * (SCALE as int) < (r1 + 1) * (r1 + 1) * (r1 + 1),
            r2 * r2 * r2 <= v * (SCALE as int) * (SCALE as int) < (r2 + 1) * (r2 + 1) * (r2 + 1),
    ;
}

/// Largest magnitude `cbrt` accepts (216 whole units).
pub const CBRT_IN_CAP: i64 = 21_600_000_000;

fn cbrt_mag(v: i64) -> (r: i64)
    requires
        0 <= v <= CBRT_IN_CAP,
    ensures
        is_cbrt_mag(r as int, v as int),
        0 <= r <= 600_000_000,
{
    let mut lo: i64 = 0;
    let mut hi: i64 = 600_000_001;
    proof {
        assert(0 * 0 * 0 <= (v as int) * (SCALE as int) * (SCALE as int) < 600_000_001int
            * 600_000_001int * 600_000_001int) by (nonlinear_arith)
            requires
                0 <= v as int <= 21_600_000_000int,
        ;
    }
    while hi - lo > 1
        invariant
            0 <= v <= CBRT_IN_CAP,
            0 <= lo < hi <= 600_000_001,
            (lo as int) * (lo as int) * (lo as int) <= (v as int) * (SCALE as int) * (SCALE as int),
            (v as int) * (SCALE as int) * (SCALE as int) < (hi as int) * (hi as int) * (hi as int),
        decreases hi - lo,
    {
        let mid: i64 = lo + (((hi - lo) as u64 / 2) as i64);
        proof {
            assert(lo < mid < hi);
            assert((mid as int) * (mid as int) < 600_000_001int * 600_000_001int)
                by (nonlinear_arith)
                requires
                    0 <= (mid as int) < 600_000_001int,
            ;
            assert((mid as int) * (mid as int) * (mid as int) < 600_000_001int * 600_000_001int
                * 600_000_001int) by (nonlinear_arith)
                requires
                    0 <= (mid as int) < 600_000_001int,
            ;
        }
        let cb: u128 = (mid as u128) * (mid as u128) * (mid as u128);
        let target: u128 = (v as u128) * 100_000_000u128 * 100_000_000u128;
        if cb <= target {
            lo = mid;
        } else {
            hi = mid;
        }
    }
    lo
}

/// The signed fixed-point cube root, by bisection on the magnitude.
pub fn cbrt(v: i64) -> (r: i64)
    requires
        -CBRT_IN_CAP <= v <= CBRT_IN_CAP,
    ensures
        r == cbrt_fix(v as int),
        -600_000_000 <= r <= 600_000_000,
{
    if v >= 0 {
        let m: i64 = cbrt_mag(v);
        proof {
            assert(is_cbrt_mag(cbrt_mag_of(v as int), v as int)) by {
                assert(exists|r: int| #[trigger] is_cbrt_mag(r, v as int)) by {
                    assert(is_cbrt_mag(m as int, v as int));
                }
            }
            lemma_cbrt_mag_unique(m as int, cbrt_mag_of(v as int), v as int);
        }
        m
    } else {
        let m: i64 = cbrt_mag(-v);
        proof {
            assert(is_cbrt_mag(cbrt_mag_of(-(v as int)), -(v as int))) by {
                assert(exists|r: int| #[trigger] is_cbrt_mag(r, -(v as int))) by {
                    assert(is_cbrt_mag(m as int, -(v as int)));
                }
            }
            lemma_cbrt_mag_unique(m as int, cbrt_mag_of(-(v as int)), -(v as int));
        }
        -m
    }
}

/// A three-term fixed-point dot product.
pub open spec fn dot3_spec(c0: int, v0: int, c1: int, v1: int, c2: int, v2: int) -> int {
    fmul_spec(c0, v0) + fmul_spec(c1, v1) + fmul_spec(c2, v2)
}

/// Largest coefficient magnitude `dot3` accepts (four whole units).
pub const DOT_COEF_CAP: i64 = 400_000_000;

/// Largest value magnitude `dot3` accepts (a thousand whole units).
pub const DOT_VAL_CAP: i64 = 100_000_000_000;

/// Evaluate a row of a conversion matrix against a component triple.
pub fn dot3(c0: i64, v0: i64, c1: i64, v1: i64, c2: i64, v2: i64) -> (r: i64)
    requires
        -DOT_COEF_CAP <= c0 <= DOT_COEF_CAP,
        -DOT_COEF_CAP <= c1 <= DOT_COEF_CAP,
        -DOT_COEF_CAP <= c2 <= DOT_COEF_CAP,
        -DOT_VAL_CAP <= v0 <= DOT_VAL_CAP,
        -DOT_VAL_CAP <= v1 <= DOT_VAL_CAP,
        -DOT_VAL_CAP <= v2 <= DOT_VAL_CAP,
    ensures
        r == dot3_spec(c0 as int, v0 as int, c1 as int, v1 as int, c2 as int, v2 as int),
{
    proof {
        lemma_fmul_mag(c0 as int, v0 as int);
        lemma_fmul_mag(c1 as int, v1 as int);
        lemma_fmul_mag(c2 as int, v2 as int);
    }
    let t0: i64 = fmul(c0, v0);
    let t1: i64 = fmul(c1, v1);
    let t2: i64 = fmul(c2, v2);
    t0 + t1 + t2
}

/// A dot product is bounded by the coefficients' magnitude bounds
/// `m0`, `m1`, `m2` times the values' magnitude bounds `w0`, `w1`,
/// `w2`, scaled down.
pub proof fn lemma_dot3_bound(
    c0: int,
    v0: int,
    c1: int,
    v1: int,
    c2: int,
    v2: int,
    m0: int,
    m1: int,
    m2: int,
    w0: int,
    w1: int,
    w2: int,
)
    requires
        -m0 <= c0 <= m0,
        -m1 <= c1 <= m1,
        -m2 <= c2 <= m2,
        -w0 <= v0 <= w0,
        -w1 <= v1 <= w1,
        -w2 <= v2 <= w2,
        0 <= m0,
        0 <= m1,
        0 <= m2,
        0 <= w0,
        0 <= w1,
        0 <= w2,
    ensures
        ({
            let cap = (m0 * w0) / (SCALE as int) + (m1 * w1) / (SCALE as int) + (m2 * w2) / (
            SCALE as int);
            -cap <= dot3_spec(c0, v0, c1, v1, c2, v2) <= cap
        }),
{
    lemma_fmul_bound(c0, v0, m0, w0);
    lemma_fmul_bound(c1, v1, m1, w1);
    lemma_fmul_bound(c2, v2, m2, w2);
}

proof fn lemma_fmul_mag(c: int, v: int)
    requires
        -(DOT_COEF_CAP as int) <= c <= DOT_COEF_CAP as int,
        -(DOT_VAL_CAP as int) <= v <= DOT_VAL_CAP as int,
    ensures
        -(FMUL_PRODUCT_CAP as int) <= c * v <= FMUL_PRODUCT_CAP as int,
        -400_000_000_000 <= fmul_spec(c, v) <= 400_000_000_000,
{
    lemma_abs_mul(c, v);
    assert(iabs(c) * iabs(v) <= (DOT_COEF_CAP as int) * (DOT_VAL_CAP as int)) by (nonlinear_arith)
        requires
            0 <= iabs(c) <= DOT_COEF_CAP as int && 0 <= iabs(v) <= DOT_VAL_CAP as int,
    ;
    lemma_fmul_bound(c, v, DOT_COEF_CAP as int, DOT_VAL_CAP as int);
}

} // verus!
