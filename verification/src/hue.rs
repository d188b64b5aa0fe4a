//! The hue of a color: an angle on the color wheel.

use vstd::prelude::*;
use crate::fixed::SCALE;

verus! {

/// 180 degrees in fixed-point representation.
pub const HALF_TURN: i64 = 180 * SCALE;

/// 360 degrees in fixed-point representation.
pub const FULL_TURN: i64 = 360 * SCALE;

/// The hue of a color, in fixed-point degrees scaled by
/// [`SCALE`](crate::SCALE).
///
/// The angle is stored shifted into the half-open interval
/// `(-180, 180]` degrees, so that values on either side of the 0°/360°
/// seam stay numerically close and the trigonometric maps used by
/// [`Oklch`](crate::Oklch) behave continuously across the wrap.
#[derive(Clone, Copy, Debug, PartialEq, Eq, Structural)]
pub struct Hue {
    pub(crate) unnormalized_degrees: i64,
}

impl Hue {
    /// The stored, shifted angle.
    pub closed spec fn unnormalized(self) -> int {
        self.unnormalized_degrees as int
    }

    /// The hue at zero degrees.
    pub closed spec fn zero_spec() -> Hue {
        Hue { unnormalized_degrees: 0 }
    }

    /// The stored angle, for the crate's own trigonometry.
    pub(crate) fn unnormalized_exec(self) -> (u: i64)
        ensures
            u as int == self.unnormalized(),
    {
        self.unnormalized_degrees
    }

    /// Wrap an already-shifted angle, for the crate's own polar maps.
    pub(crate) fn from_unnormalized(u: i64) -> (h: Hue)
        requires
            -HALF_TURN < u <= HALF_TURN,
        ensures
            h.unnormalized() == u as int,
            h.wf(),
    {
        Hue { unnormalized_degrees: u }
    }

    /// The hue at zero degrees.
    pub fn zero() -> (h: Hue)
        ensures
            h == Hue::zero_spec(),
            h.unnormalized() == 0,
            h.wf(),
    {
        Hue { unnormalized_degrees: 0 }
    }

    /// The stored angle lies in `(-180, 180]` degrees.
    pub open spec fn wf(self) -> bool {
        -(HALF_TURN as int) < self.unnormalized() <= HALF_TURN as int
    }

    /// What `from_degrees` stores for an in-range input: angles above
    /// 180° are shifted down a full turn.
    pub open spec fn from_degrees_spec(degrees: int) -> int {
        if degrees > HALF_TURN as int {
            degrees - (FULL_TURN as int)
        } else {
            degrees
        }
    }

    /// Creates a new `Hue` from a hue in fixed-point degrees (from 0 to
    /// 360, scaled by [`SCALE`](crate::SCALE)).
    ///
    /// Returns `None` if and only if the input is not in that range;
    /// out-of-range angles are rejected rather than wrapped.
    pub fn from_degrees(degrees: i64) -> (r: Option<Self>)
        ensures
            r is Some <==> 0 <= degrees <= FULL_TURN,
            r is Some ==> {
                &&& r->0.unnormalized() == Self::from_degrees_spec(degrees as int)
                &&& r->0.wf()
            },
    {
        if degrees < 0 || degrees > FULL_TURN {
            return None;
        }
        let unnormalized: i64 = if degrees > HALF_TURN {
            degrees - FULL_TURN
        } else {
            degrees
        };
        Some(Hue { unnormalized_degrees: unnormalized })
    }

    /// What `to_degrees` returns: the stored angle, wrapped back up
    /// into `[0, 360)` degrees.
    pub open spec fn to_degrees_spec(self) -> int {
        Hue::to_degrees_of(self.unnormalized())
    }

    /// The wrap applied on output, over the raw stored angle.
    pub open spec fn to_degrees_of(u: int) -> int {
        if u < 0 {
            u + (FULL_TURN as int)
        } else {
            u
        }
    }

    /// The hue in fixed-point degrees, in `[0, 360)` scaled by
    /// [`SCALE`](crate::SCALE).
    pub fn to_degrees(self) -> (r: i64)
        requires
            self.wf(),
        ensures
            r == self.to_degrees_spec(),
            0 <= r < FULL_TURN,
    {
        if self.unnormalized_degrees < 0 {
            self.unnormalized_degrees + FULL_TURN
        } else {
            self.unnormalized_degrees
        }
    }
}

/// The seam angles store canonically: a full turn stores exactly as
/// zero degrees and a half turn as itself, so the trigonometric maps
/// behave identically on either writing of the seam.
pub proof fn lemma_hue_seam()
    ensures
        Hue::from_degrees_spec(0) == 0,
        Hue::from_degrees_spec(FULL_TURN as int) == 0,
        Hue::from_degrees_spec(HALF_TURN as int) == HALF_TURN as int,
{
}

/// Every fixed-point degree value in `[0, 360)` survives the round
/// trip through `Hue` exactly.
pub proof fn lemma_hue_degrees_round_trip(degrees: int)
    requires
        0 <= degrees < FULL_TURN as int,
    ensures
        Hue::to_degrees_of(Hue::from_degrees_spec(degrees)) == degrees,
{
}

} // verus!
