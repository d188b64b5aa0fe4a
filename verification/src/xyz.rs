//! The CIE 1931 XYZ color space, the hub of all conversions.

use vstd::prelude::*;
use crate::ColorSpace;
use crate::CoreColorSpace;
use crate::approx_in_range;
use crate::approx_in_range_spec;
use crate::fixed::SCALE;

verus! {

/// Largest channel magnitude (a hundred whole units) that the hub
/// accepts; every `to_xyz` hop stays well inside it.
pub const XYZ_DOM_CAP: i64 = 100 * SCALE;

/// Nominal upper bound of the `x` channel: the D65 white point's `x`.
pub const XYZ_X_MAX: i64 = 95_047_000;

/// Nominal upper bound of the `z` channel: the D65 white point's `z`.
pub const XYZ_Z_MAX: i64 = 108_883_000;

/// A color from the CIE 1931 XYZ color space, in fixed-point
/// components scaled by [`SCALE`](crate::SCALE).
///
/// It is assumed that the color's illuminant and observer are the
/// standard D65 and 2-degree.
#[derive(Clone, Copy, Debug, PartialEq, Eq, Structural)]
pub struct Xyz {
    /// A mixture of cone cell response curves chosen by the CIE to be
    /// nonnegative. Ranges from 0 to 0.95047.
    pub x: i64,
    /// Lightness of the color. 0 is complete black, 1 is the brightest
    /// white.
    pub y: i64,
    /// Roughly a measure of the blueness of the color. Ranges from 0
    /// (no blue) to 1.08883 (maximum blue).
    pub z: i64,
}

impl Xyz {
    /// Every channel is within the hub's magnitude cap, so the
    /// fixed-point conversions out of XYZ stay exact.
    pub open spec fn hub_in_dom(self) -> bool {
        &&& -(XYZ_DOM_CAP as int) <= self.x as int <= XYZ_DOM_CAP as int
        &&& -(XYZ_DOM_CAP as int) <= self.y as int <= XYZ_DOM_CAP as int
        &&& -(XYZ_DOM_CAP as int) <= self.z as int <= XYZ_DOM_CAP as int
    }
}

impl ColorSpace for Xyz {
    open spec fn black_spec() -> Xyz {
        Xyz { x: 0, y: 0, z: 0 }
    }

    open spec fn white_spec() -> Xyz {
        Xyz { x: XYZ_X_MAX, y: SCALE, z: XYZ_Z_MAX }
    }

    open spec fn in_bounds_spec(self) -> bool {
        &&& approx_in_range_spec(self.x as int, 0, XYZ_X_MAX as int)
        &&& approx_in_range_spec(self.y as int, 0, SCALE as int)
        &&& approx_in_range_spec(self.z as int, 0, XYZ_Z_MAX as int)
    }

    fn black() -> (r: Xyz) {
        Xyz { x: 0, y: 0, z: 0 }
    }

    fn white() -> (r: Xyz) {
        Xyz { x: XYZ_X_MAX, y: SCALE, z: XYZ_Z_MAX }
    }

    fn in_bounds(self) -> (r: bool) {
        approx_in_range(self.x, 0, XYZ_X_MAX) && approx_in_range(self.y, 0, SCALE)
            && approx_in_range(self.z, 0, XYZ_Z_MAX)
    }

    proof fn lemma_black_white_in_bounds() {
    }
}

impl CoreColorSpace for Xyz {
    open spec fn in_dom(self) -> bool {
        self.hub_in_dom()
    }

    open spec fn to_xyz_spec(self) -> Xyz {
        self
    }

    open spec fn from_xyz_spec(xyz: Xyz) -> Xyz {
        xyz
    }

    fn from_xyz(xyz: Xyz) -> (r: Xyz) {
        xyz
    }

    fn to_xyz(self) -> (r: Xyz) {
        self
    }

    proof fn lemma_to_xyz_in_dom(self) {
    }
}

} // verus!
