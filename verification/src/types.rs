//! Physical quantities in fixed point.
//!
//! Every quantity is a whole number of millionths of its unit, so `Speed(1_500_000)`
//! is a speed of 1.5. Each kind of quantity is a type of its own, and only the
//! arithmetic that has a physical meaning is offered.

use vstd::prelude::*;
use crate::math::{div_toward_zero, trunc_div};

verus! {

/// The number of fixed-point steps in one unit.
pub const SCALE: i64 = 1_000_000;

/// The square of `SCALE`.
pub const SCALE_SQUARED: i64 = 1_000_000_000_000;

/// The number of fixed-point steps in the length of a direction. Directions are
/// held a million times finer than quantities, so that the length of a unit
/// vector is one to within a few parts in a million million.
pub const DIRECTION_SCALE: i64 = 1_000_000_000_000;

/// The square of `DIRECTION_SCALE`.
pub const DIRECTION_SCALE_SQUARED: i128 = 1_000_000_000_000_000_000_000_000;

/// The largest magnitude a configured quantity may have: a million units.
pub const MAX_QUANTITY: i64 = 1_000_000_000_000;

/// The 64-bit integer nearest to `value`.
pub open spec fn saturated(value: int) -> i64 {
    if value > i64::MAX {
        i64::MAX
    } else if value < i64::MIN {
        i64::MIN
    } else {
        value as i64
    }
}

/// A duration, such as the timestep of a simulation.
#[derive(Copy, Clone, Debug, PartialEq, Eq, Structural)]
pub struct RelativeTime(pub i64);

/// A point in time, counted from the start of a simulation.
#[derive(Copy, Clone, Debug, PartialEq, Eq, Structural)]
pub struct AbsoluteTime(pub i64);

/// The distance a particle covers per unit of time.
#[derive(Copy, Clone, Debug, PartialEq, Eq, Structural)]
pub struct Speed(pub i64);

/// The amplitude of the angular noise.
#[derive(Copy, Clone, Debug, PartialEq, Eq, Structural)]
pub struct Noise(pub i64);

/// The distance below which two particles are neighbours.
#[derive(Copy, Clone, Debug, PartialEq, Eq, Structural)]
pub struct ParticleDistanceThreshold(pub i64);

/// The side length of the square, periodic domain.
#[derive(Copy, Clone, Debug, PartialEq, Eq, Structural)]
pub struct DomainBoundaryLength(pub i64);

/// An order parameter: `0` is full disorder, `SCALE` is full alignment.
#[derive(Copy, Clone, Debug, PartialEq, Eq, Structural)]
pub struct InstantaneousOrder(pub i64);

impl RelativeTime {
    /// A timestep is positive and representable.
    pub open spec fn is_valid(self) -> bool {
        0 < self.0 <= MAX_QUANTITY
    }
}

impl AbsoluteTime {
    /// The time `rhs` after `self`, held at the largest representable time once
    /// that is reached.
    pub open spec fn spec_add(self, rhs: RelativeTime) -> AbsoluteTime {
        AbsoluteTime(saturated(self.0 + rhs.0))
    }
}

impl core::ops::Add<RelativeTime> for AbsoluteTime {
    type Output = AbsoluteTime;

    fn add(self, rhs: RelativeTime) -> (r: AbsoluteTime) {
        let sum: i128 = self.0 as i128 + rhs.0 as i128;
        if sum > i64::MAX as i128 {
            AbsoluteTime(i64::MAX)
        } else if sum < i64::MIN as i128 {
            AbsoluteTime(i64::MIN)
        } else {
            AbsoluteTime(sum as i64)
        }
    }
}

impl vstd::std_specs::ops::AddSpecImpl<RelativeTime> for AbsoluteTime {
    open spec fn obeys_add_spec() -> bool {
        true
    }

    open spec fn add_req(self, rhs: RelativeTime) -> bool {
        true
    }

    open spec fn add_spec(self, rhs: RelativeTime) -> AbsoluteTime {
        self.spec_add(rhs)
    }
}

impl Speed {
    /// A speed is non-negative and representable.
    pub open spec fn is_valid(self) -> bool {
        0 <= self.0 <= MAX_QUANTITY
    }
}

impl Noise {
    /// A noise amplitude is non-negative and representable.
    pub open spec fn is_valid(self) -> bool {
        0 <= self.0 <= MAX_QUANTITY
    }

    /// The amplitude times a factor in fixed point, rounded toward zero and held
    /// at the ends of the 64-bit range.
    pub open spec fn spec_scaled(self, factor: i64) -> Noise {
        Noise(saturated(trunc_div(self.0 * factor, SCALE as int)))
    }

    /// The amplitude times a factor in fixed point: `factor` is in millionths,
    /// as the amplitude is.
    pub fn scaled(self, factor: i64) -> (r: Noise)
        ensures
            r == self.spec_scaled(factor),
    {
        let amplitude: i128 = self.0 as i128;
        let by: i128 = factor as i128;
        assert(-0x4000_0000_0000_0000_0000_0000_0000_0000 <= amplitude * by
            <= 0x4000_0000_0000_0000_0000_0000_0000_0000) by (nonlinear_arith)
            requires
                -0x8000_0000_0000_0000 <= amplitude <= 0x8000_0000_0000_0000,
                -0x8000_0000_0000_0000 <= by <= 0x8000_0000_0000_0000,
        ;
        let product: i128 = div_toward_zero(amplitude * by, SCALE as i128);
        if product > i64::MAX as i128 {
            Noise(i64::MAX)
        } else if product < i64::MIN as i128 {
            Noise(i64::MIN)
        } else {
            Noise(product as i64)
        }
    }
}

impl ParticleDistanceThreshold {
    /// A neighbour distance is positive and representable.
    pub open spec fn is_valid(self) -> bool {
        0 < self.0 <= MAX_QUANTITY
    }
}

impl DomainBoundaryLength {
    /// A domain has a positive, representable side length.
    pub open spec fn is_valid(self) -> bool {
        0 < self.0 <= MAX_QUANTITY
    }
}

impl InstantaneousOrder {
    /// An order parameter lies between zero and one.
    pub open spec fn is_valid(self) -> bool {
        0 <= self.0 <= SCALE
    }
}

} // verus!
