//! Conversion between color spaces over a fixed-point component model.
//!
//! Every color is an aggregate of `i64` components holding the real
//! quantity scaled by [`fixed::SCALE`] (so `1.0` is `100_000_000`).
//! The CIE XYZ space is the hub: each core space ([`Xyz`],
//! [`LinearRgb`], [`Oklab`]) converts to and from it, and [`convert`]
//! composes the two hops. Variant representations ([`Srgb`], [`Oklch`],
//! [`Hex`]) convert one hop to and from their core counterpart.

mod fixed;
mod hex;
mod hue;
mod linear_rgb;
mod oklab;
mod oklch;
mod srgb;
mod trig;
mod xyz;

pub use fixed::SCALE;
pub use hex::Hex;
pub use hex::HexParseError;
pub use hue::Hue;
pub use linear_rgb::LinearRgb;
pub use oklab::Oklab;
pub use oklch::Oklch;
pub use srgb::Srgb;
pub use xyz::Xyz;

use vstd::prelude::*;

verus! {

/// Slack accepted around every nominal channel range (0.005 whole
/// units), absorbing rounding drift from chained conversions.
pub const BOUNDS_TOLERANCE: i64 = 500_000;

/// A color space: it designates black and white and can say whether a
/// color lies within its nominal channel ranges.
pub trait ColorSpace: Sized {
    /// The color black.
    spec fn black_spec() -> Self;

    /// The color white.
    spec fn white_spec() -> Self;

    /// Whether every channel lies within its nominal range, with
    /// [`BOUNDS_TOLERANCE`] of slack on each side.
    spec fn in_bounds_spec(self) -> bool;

    /// The color black.
    fn black() -> (r: Self)
        ensures
            r == Self::black_spec(),
    ;

    /// The color white.
    fn white() -> (r: Self)
        ensures
            r == Self::white_spec(),
    ;

    /// Checks if the color is in bounds.
    fn in_bounds(self) -> (r: bool)
        ensures
            r == self.in_bounds_spec(),
    ;

    /// Black and white themselves are always in bounds.
    proof fn lemma_black_white_in_bounds()
        ensures
            Self::black_spec().in_bounds_spec(),
            Self::white_spec().in_bounds_spec(),
    ;
}

/// A color space that can be converted to any other core color space
/// through the XYZ hub.
pub trait CoreColorSpace: Sized {
    /// The inputs the conversions accept: every channel within the
    /// magnitude cap that keeps the fixed-point arithmetic exact.
    spec fn in_dom(self) -> bool;

    /// The color in the XYZ color space that this color denotes.
    spec fn to_xyz_spec(self) -> Xyz;

    /// The color of this space that an XYZ color denotes.
    spec fn from_xyz_spec(xyz: Xyz) -> Self;

    /// Convert a color in the XYZ color space to the color space that
    /// `Self` represents.
    fn from_xyz(xyz: Xyz) -> (r: Self)
        requires
            xyz.hub_in_dom(),
        ensures
            r == Self::from_xyz_spec(xyz),
    ;

    /// Convert the color of `Self` to the XYZ color space.
    fn to_xyz(self) -> (r: Xyz)
        requires
            self.in_dom(),
        ensures
            r == self.to_xyz_spec(),
    ;

    /// The hub color produced from any acceptable input is itself an
    /// acceptable input to the reverse hop.
    proof fn lemma_to_xyz_in_dom(self)
        requires
            self.in_dom(),
        ensures
            self.to_xyz_spec().hub_in_dom(),
    ;
}

/// Convert a color from one core color space to another, through the
/// XYZ hub.
pub fn convert<In: CoreColorSpace, Out: CoreColorSpace>(color: In) -> (r: Out)
    requires
        color.in_dom(),
    ensures
        r == Out::from_xyz_spec(color.to_xyz_spec()),
{
    let xyz = color.to_xyz();
    proof {
        color.lemma_to_xyz_in_dom();
    }
    Out::from_xyz(xyz)
}

/// Whether `n` lies in the half-open range `lo..hi` widened by
/// [`BOUNDS_TOLERANCE`] on each side.
pub open spec fn approx_in_range_spec(n: int, lo: int, hi: int) -> bool {
    lo - (BOUNDS_TOLERANCE as int) <= n < hi + (BOUNDS_TOLERANCE as int)
}

/// Checks `n` against the half-open range `lo..hi` with tolerance.
pub(crate) fn approx_in_range(n: i64, lo: i64, hi: i64) -> (r: bool)
    requires
        -1_000_000_000_000 <= lo <= 1_000_000_000_000,
        -1_000_000_000_000 <= hi <= 1_000_000_000_000,
    ensures
        r == approx_in_range_spec(n as int, lo as int, hi as int),
{
    lo - BOUNDS_TOLERANCE <= n && n < hi + BOUNDS_TOLERANCE
}

/// Converting a color from XYZ to XYZ through the hub returns it
/// unchanged: the round trip through [`convert`] is exact identity.
pub proof fn lemma_convert_xyz_identity(x: Xyz)
    requires
        x.in_dom(),
    ensures
        <Xyz as CoreColorSpace>::from_xyz_spec(x.to_xyz_spec()) == x,
{
}

} // verus!
