//! Light-linear (gamma-uncorrected) RGB under the sRGB primaries and
//! D65 white, and its conversion to and from XYZ.

use vstd::prelude::*;
use crate::ColorSpace;
use crate::CoreColorSpace;
use crate::approx_in_range;
use crate::approx_in_range_spec;
use crate::fixed::SCALE;
use crate::fixed::dot3;
use crate::fixed::dot3_spec;
use crate::fixed::lemma_dot3_bound;
use crate::xyz::Xyz;

verus! {

/// Largest channel magnitude (two whole units) a core space accepts
/// on the way into the hub.
pub const CHAN_DOM_CAP: i64 = 2 * SCALE;

/// A color from the linear RGB color space: red, green and blue
/// proportional to light intensity, each nominally in `[0, 1]`, in
/// fixed-point components scaled by [`SCALE`](crate::SCALE).
#[derive(Clone, Copy, Debug, PartialEq, Eq, Structural)]
pub struct LinearRgb {
    /// The red channel.
    pub r: i64,
    /// The green channel.
    pub g: i64,
    /// The blue channel.
    pub b: i64,
}

impl ColorSpace for LinearRgb {
    open spec fn black_spec() -> LinearRgb {
        LinearRgb { r: 0, g: 0, b: 0 }
    }

    open spec fn white_spec() -> LinearRgb {
        LinearRgb { r: SCALE, g: SCALE, b: SCALE }
    }

    open spec fn in_bounds_spec(self) -> bool {
        &&& approx_in_range_spec(self.r as int, 0, SCALE as int)
        &&& approx_in_range_spec(self.g as int, 0, SCALE as int)
        &&& approx_in_range_spec(self.b as int, 0, SCALE as int)
    }

    fn black() -> (c: LinearRgb) {
        LinearRgb { r: 0, g: 0, b: 0 }
    }

    fn white() -> (c: LinearRgb) {
        LinearRgb { r: SCALE, g: SCALE, b: SCALE }
    }

    fn in_bounds(self) -> (c: bool) {
        approx_in_range(self.r, 0, SCALE) && approx_in_range(self.g, 0, SCALE)
            && approx_in_range(self.b, 0, SCALE)
    }

    proof fn lemma_black_white_in_bounds() {
    }
}

impl CoreColorSpace for LinearRgb {
    open spec fn in_dom(self) -> bool {
        &&& -(CHAN_DOM_CAP as int) <= self.r as int <= CHAN_DOM_CAP as int
        &&& -(CHAN_DOM_CAP as int) <= self.g as int <= CHAN_DOM_CAP as int
        &&& -(CHAN_DOM_CAP as int) <= self.b as int <= CHAN_DOM_CAP as int
    }

    open spec fn to_xyz_spec(self) -> Xyz {
        Xyz {
            x: dot3_spec(41239080, self.r as int, 35758434, self.g as int, 18048079, self.b as int)
                as i64,
            y: dot3_spec(21263901, self.r as int, 71516868, self.g as int, 7219232, self.b as int)
                as i64,
            z: dot3_spec(1933082, self.r as int, 11919478, self.g as int, 95053215, self.b as int)
                as i64,
        }
    }

    open spec fn from_xyz_spec(xyz: Xyz) -> LinearRgb {
        LinearRgb {
            r: dot3_spec(
                324096994,
                xyz.x as int,
                -153738318,
                xyz.y as int,
                -49861076,
                xyz.z as int,
            ) as i64,
            g: dot3_spec(
                -96924364,
                xyz.x as int,
                187596750,
                xyz.y as int,
                4155506,
                xyz.z as int,
            ) as i64,
            b: dot3_spec(
                5563008,
                xyz.x as int,
                -20397696,
                xyz.y as int,
                105697151,
                xyz.z as int,
            ) as i64,
        }
    }

    fn from_xyz(xyz: Xyz) -> (c: LinearRgb) {
        proof {
            lemma_from_xyz_rows_fit(xyz);
        }
        LinearRgb {
            r: dot3(324096994, xyz.x, -153738318, xyz.y, -49861076, xyz.z),
            g: dot3(-96924364, xyz.x, 187596750, xyz.y, 4155506, xyz.z),
            b: dot3(5563008, xyz.x, -20397696, xyz.y, 105697151, xyz.z),
        }
    }

    fn to_xyz(self) -> (c: Xyz) {
        proof {
            lemma_rgb_to_xyz_rows_fit(self);
        }
        Xyz {
            x: dot3(41239080, self.r, 35758434, self.g, 18048079, self.b),
            y: dot3(21263901, self.r, 71516868, self.g, 7219232, self.b),
            z: dot3(1933082, self.r, 11919478, self.g, 95053215, self.b),
        }
    }

    proof fn lemma_to_xyz_in_dom(self) {
        lemma_rgb_to_xyz_rows_fit(self);
    }
}

/// Each row of the RGB-to-XYZ matrix applied to an acceptable channel
/// triple stays within the hub's cap.
proof fn lemma_rgb_to_xyz_rows_fit(c: LinearRgb)
    requires
        c.in_dom(),
    ensures
        ({
            let x = dot3_spec(41239080, c.r as int, 35758434, c.g as int, 18048079, c.b as int);
            let y = dot3_spec(21263901, c.r as int, 71516868, c.g as int, 7219232, c.b as int);
            let z = dot3_spec(1933082, c.r as int, 11919478, c.g as int, 95053215, c.b as int);
            &&& -220_000_000 <= x <= 220_000_000
            &&& -220_000_000 <= y <= 220_000_000
            &&& -220_000_000 <= z <= 220_000_000
        }),
{
    lemma_dot3_bound(
        41239080,
        c.r as int,
        35758434,
        c.g as int,
        18048079,
        c.b as int,
        41239080,
        35758434,
        18048079,
        200_000_000,
        200_000_000,
        200_000_000,
    );
    lemma_dot3_bound(
        21263901,
        c.r as int,
        71516868,
        c.g as int,
        7219232,
        c.b as int,
        21263901,
        71516868,
        7219232,
        200_000_000,
        200_000_000,
        200_000_000,
    );
    lemma_dot3_bound(
        1933082,
        c.r as int,
        11919478,
        c.g as int,
        95053215,
        c.b as int,
        1933082,
        11919478,
        95053215,
        200_000_000,
        200_000_000,
        200_000_000,
    );
}

/// Each row of the XYZ-to-RGB matrix applied to an acceptable hub
/// triple fits the fixed-point representation.
proof fn lemma_from_xyz_rows_fit(xyz: Xyz)
    requires
        xyz.hub_in_dom(),
    ensures
        ({
            let r = dot3_spec(
                324096994,
                xyz.x as int,
                -153738318,
                xyz.y as int,
                -49861076,
                xyz.z as int,
            );
            let g = dot3_spec(
                -96924364,
                xyz.x as int,
                187596750,
                xyz.y as int,
                4155506,
                xyz.z as int,
            );
            let b = dot3_spec(
                5563008,
                xyz.x as int,
                -20397696,
                xyz.y as int,
                105697151,
                xyz.z as int,
            );
            &&& -60_000_000_000 <= r <= 60_000_000_000
            &&& -60_000_000_000 <= g <= 60_000_000_000
            &&& -60_000_000_000 <= b <= 60_000_000_000
        }),
{
    lemma_dot3_bound(
        324096994,
        xyz.x as int,
        -153738318,
        xyz.y as int,
        -49861076,
        xyz.z as int,
        324096994,
        153738318,
        49861076,
        10_000_000_000,
        10_000_000_000,
        10_000_000_000,
    );
    lemma_dot3_bound(
        -96924364,
        xyz.x as int,
        187596750,
        xyz.y as int,
        4155506,
        xyz.z as int,
        96924364,
        187596750,
        4155506,
        10_000_000_000,
        10_000_000_000,
        10_000_000_000,
    );
    lemma_dot3_bound(
        5563008,
        xyz.x as int,
        -20397696,
        xyz.y as int,
        105697151,
        xyz.z as int,
        5563008,
        20397696,
        105697151,
        10_000_000_000,
        10_000_000_000,
        10_000_000_000,
    );
}

} // verus!
