//! The perceptually-uniform Oklab color space and its conversion to
//! and from XYZ.
//!
//! The forward direction maps XYZ through a fixed linear transform to
//! a long/medium/short cone response triple, takes the signed cube
//! root of each response, and maps the result through a second fixed
//! linear transform. The reverse direction undoes the steps in
//! reverse order, cubing instead of taking roots.

use vstd::prelude::*;
use crate::ColorSpace;
use crate::CoreColorSpace;
use crate::approx_in_range;
use crate::approx_in_range_spec;
use crate::fixed::SCALE;
use crate::fixed::cbrt;
use crate::fixed::cbrt_fix;
use crate::fixed::cube;
use crate::fixed::cube_fix;
use crate::fixed::dot3;
use crate::fixed::dot3_spec;
use crate::fixed::fmul_spec;
use crate::fixed::lemma_dot3_bound;
use crate::fixed::lemma_fmul_bound;
use crate::linear_rgb::CHAN_DOM_CAP;
use crate::xyz::Xyz;

verus! {

/// A color from the Oklab color space, in fixed-point components
/// scaled by [`SCALE`](crate::SCALE).
#[derive(Clone, Copy, Debug, PartialEq, Eq, Structural)]
pub struct Oklab {
    /// Perceived lightness, nominally in `[0, 1]`.
    pub l: i64,
    /// The green-red opponent axis; unbounded, practically small.
    pub a: i64,
    /// The blue-yellow opponent axis; unbounded, practically small.
    pub b: i64,
}

/// The cone responses an XYZ color maps to on the way into Oklab.
pub open spec fn xyz_to_lms_spec(xyz: Xyz) -> (int, int, int) {
    (
        dot3_spec(81893301, xyz.x as int, 36186674, xyz.y as int, -12885971, xyz.z as int),
        dot3_spec(3298454, xyz.x as int, 92931187, xyz.y as int, 3614564, xyz.z as int),
        dot3_spec(4820030, xyz.x as int, 26436627, xyz.y as int, 63385171, xyz.z as int),
    )
}

/// The root cone responses an Oklab color maps to on the way out.
pub open spec fn oklab_to_lms_root_spec(c: Oklab) -> (int, int, int) {
    (
        dot3_spec(SCALE as int, c.l as int, 39633778, c.a as int, 21580376, c.b as int),
        dot3_spec(SCALE as int, c.l as int, -10556135, c.a as int, -6385417, c.b as int),
        dot3_spec(SCALE as int, c.l as int, -8948418, c.a as int, -129148555, c.b as int),
    )
}

impl ColorSpace for Oklab {
    open spec fn black_spec() -> Oklab {
        Oklab { l: 0, a: 0, b: 0 }
    }

    open spec fn white_spec() -> Oklab {
        Oklab { l: SCALE, a: 0, b: 0 }
    }

    /// Lightness is checked against `[0, 1]`; the opponent axes have
    /// no hard bound and are treated as always in bounds.
    open spec fn in_bounds_spec(self) -> bool {
        approx_in_range_spec(self.l as int, 0, SCALE as int)
    }

    fn black() -> (c: Oklab) {
        Oklab { l: 0, a: 0, b: 0 }
    }

    fn white() -> (c: Oklab) {
        Oklab { l: SCALE, a: 0, b: 0 }
    }

    fn in_bounds(self) -> (c: bool) {
        approx_in_range(self.l, 0, SCALE)
    }

    proof fn lemma_black_white_in_bounds() {
    }
}

impl CoreColorSpace for Oklab {
    open spec fn in_dom(self) -> bool {
        &&& -(CHAN_DOM_CAP as int) <= self.l as int <= CHAN_DOM_CAP as int
        &&& -(SCALE as int) <= self.a as int <= SCALE as int
        &&& -(SCALE as int) <= self.b as int <= SCALE as int
    }

    open spec fn to_xyz_spec(self) -> Xyz {
        let (lr, mr, sr) = oklab_to_lms_root_spec(self);
        let lc = cube_fix(lr);
        let mc = cube_fix(mr);
        let sc = cube_fix(sr);
        Xyz {
            x: dot3_spec(122701385, lc, -55779998, mc, 28125615, sc) as i64,
            y: dot3_spec(-4058018, lc, 111225687, mc, -7167668, sc) as i64,
            z: dot3_spec(-7638128, lc, -42148198, mc, 158616322, sc) as i64,
        }
    }

    open spec fn from_xyz_spec(xyz: Xyz) -> Oklab {
        let (l, m, s) = xyz_to_lms_spec(xyz);
        let lr = cbrt_fix(l);
        let mr = cbrt_fix(m);
        let sr = cbrt_fix(s);
        Oklab {
            l: dot3_spec(21045426, lr, 79361779, mr, -407205, sr) as i64,
            a: dot3_spec(197799850, lr, -242859221, mr, 45059371, sr) as i64,
            b: dot3_spec(2590404, lr, 78277177, mr, -80867577, sr) as i64,
        }
    }

    fn from_xyz(xyz: Xyz) -> (c: Oklab) {
        proof {
            lemma_xyz_lms_fit(xyz);
        }
        let l: i64 = dot3(81893301, xyz.x, 36186674, xyz.y, -12885971, xyz.z);
        let m: i64 = dot3(3298454, xyz.x, 92931187, xyz.y, 3614564, xyz.z);
        let s: i64 = dot3(4820030, xyz.x, 26436627, xyz.y, 63385171, xyz.z);
        let lr: i64 = cbrt(l);
        let mr: i64 = cbrt(m);
        let sr: i64 = cbrt(s);
        Oklab {
            l: dot3(21045426, lr, 79361779, mr, -407205, sr),
            a: dot3(197799850, lr, -242859221, mr, 45059371, sr),
            b: dot3(2590404, lr, 78277177, mr, -80867577, sr),
        }
    }

    fn to_xyz(self) -> (c: Xyz) {
        proof {
            lemma_oklab_lms_root_fit(self);
        }
        let lr: i64 = dot3(SCALE, self.l, 39633778, self.a, 21580376, self.b);
        let mr: i64 = dot3(SCALE, self.l, -10556135, self.a, -6385417, self.b);
        let sr: i64 = dot3(SCALE, self.l, -8948418, self.a, -129148555, self.b);
        let lc: i64 = cube(lr);
        let mc: i64 = cube(mr);
        let sc: i64 = cube(sr);
        proof {
            lemma_cube_rows_fit(lr as int, mr as int, sr as int);
        }
        Xyz {
            x: dot3(122701385, lc, -55779998, mc, 28125615, sc),
            y: dot3(-4058018, lc, 111225687, mc, -7167668, sc),
            z: dot3(-7638128, lc, -42148198, mc, 158616322, sc),
        }
    }

    proof fn lemma_to_xyz_in_dom(self) {
        lemma_oklab_lms_root_fit(self);
        let (lr, mr, sr) = oklab_to_lms_root_spec(self);
        lemma_cube_rows_fit(lr, mr, sr);
    }
}

/// The cone response rows stay within the cube root's accepted range
/// for any acceptable hub input.
proof fn lemma_xyz_lms_fit(xyz: Xyz)
    requires
        xyz.hub_in_dom(),
    ensures
        ({
            let (l, m, s) = xyz_to_lms_spec(xyz);
            &&& -14_000_000_000 <= l <= 14_000_000_000
            &&& -14_000_000_000 <= m <= 14_000_000_000
            &&& -14_000_000_000 <= s <= 14_000_000_000
        }),
{
    lemma_dot3_bound(
        81893301,
        xyz.x as int,
        36186674,
        xyz.y as int,
        -12885971,
        xyz.z as int,
        81893301,
        36186674,
        12885971,
        10_000_000_000,
        10_000_000_000,
        10_000_000_000,
    );
    lemma_dot3_bound(
        3298454,
        xyz.x as int,
        92931187,
        xyz.y as int,
        3614564,
        xyz.z as int,
        3298454,
        92931187,
        3614564,
        10_000_000_000,
        10_000_000_000,
        10_000_000_000,
    );
    lemma_dot3_bound(
        4820030,
        xyz.x as int,
        26436627,
        xyz.y as int,
        63385171,
        xyz.z as int,
        4820030,
        26436627,
        63385171,
        10_000_000_000,
        10_000_000_000,
        10_000_000_000,
    );
}

/// The root cone response rows stay small for any acceptable Oklab
/// input.
proof fn lemma_oklab_lms_root_fit(c: Oklab)
    requires
        c.in_dom(),
    ensures
        ({
            let (lr, mr, sr) = oklab_to_lms_root_spec(c);
            &&& -340_000_000 <= lr <= 340_000_000
            &&& -340_000_000 <= mr <= 340_000_000
            &&& -340_000_000 <= sr <= 340_000_000
        }),
{
    lemma_dot3_bound(
        SCALE as int,
        c.l as int,
        39633778,
        c.a as int,
        21580376,
        c.b as int,
        SCALE as int,
        39633778,
        21580376,
        200_000_000,
        100_000_000,
        100_000_000,
    );
    lemma_dot3_bound(
        SCALE as int,
        c.l as int,
        -10556135,
        c.a as int,
        -6385417,
        c.b as int,
        SCALE as int,
        10556135,
        6385417,
        200_000_000,
        100_000_000,
        100_000_000,
    );
    lemma_dot3_bound(
        SCALE as int,
        c.l as int,
        -8948418,
        c.a as int,
        -129148555,
        c.b as int,
        SCALE as int,
        8948418,
        129148555,
        200_000_000,
        100_000_000,
        100_000_000,
    );
}

/// Cubed root cone responses feed rows that stay within the hub's
/// cap.
proof fn lemma_cube_rows_fit(lr: int, mr: int, sr: int)
    requires
        -340_000_000 <= lr <= 340_000_000,
        -340_000_000 <= mr <= 340_000_000,
        -340_000_000 <= sr <= 340_000_000,
    ensures
        -4_000_000_000 <= cube_fix(lr) <= 4_000_000_000,
        -4_000_000_000 <= cube_fix(mr) <= 4_000_000_000,
        -4_000_000_000 <= cube_fix(sr) <= 4_000_000_000,
        ({
            let lc = cube_fix(lr);
            let mc = cube_fix(mr);
            let sc = cube_fix(sr);
            let x = dot3_spec(122701385, lc, -55779998, mc, 28125615, sc);
            let y = dot3_spec(-4058018, lc, 111225687, mc, -7167668, sc);
            let z = dot3_spec(-7638128, lc, -42148198, mc, 158616322, sc);
            &&& -10_000_000_000 <= x <= 10_000_000_000
            &&& -10_000_000_000 <= y <= 10_000_000_000
            &&& -10_000_000_000 <= z <= 10_000_000_000
        }),
{
    lemma_cube_small(lr);
    lemma_cube_small(mr);
    lemma_cube_small(sr);
    let lc = cube_fix(lr);
    let mc = cube_fix(mr);
    let sc = cube_fix(sr);
    lemma_dot3_bound(
        122701385,
        lc,
        -55779998,
        mc,
        28125615,
        sc,
        122701385,
        55779998,
        28125615,
        4_000_000_000,
        4_000_000_000,
        4_000_000_000,
    );
    lemma_dot3_bound(
        -4058018,
        lc,
        111225687,
        mc,
        -7167668,
        sc,
        4058018,
        111225687,
        7167668,
        4_000_000_000,
        4_000_000_000,
        4_000_000_000,
    );
    lemma_dot3_bound(
        -7638128,
        lc,
        -42148198,
        mc,
        158616322,
        sc,
        7638128,
        42148198,
        158616322,
        4_000_000_000,
        4_000_000_000,
        4_000_000_000,
    );
}

/// A value within a third of the cube helper's accepted range cubes
/// to at most thirty-six whole units.
proof fn lemma_cube_small(v: int)
    requires
        -340_000_000 <= v <= 340_000_000,
    ensures
        -4_000_000_000 <= cube_fix(v) <= 4_000_000_000,
{
    lemma_fmul_bound(v, v, 340_000_000, 340_000_000);
    lemma_fmul_bound(v, fmul_spec(v, v), 340_000_000, 1_156_000_000);
}

} // verus!
