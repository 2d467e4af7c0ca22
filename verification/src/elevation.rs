//! Elevation readings as the scanner sees them.
//!
//! The propagation model works in real numbers; this library only ever asks
//! of a reading whether it is defined, on which side of the horizon it lies
//! and how it compares with another one.  A reading is therefore an integer
//! on a scale of the caller's choosing.  The scale must keep the order of the
//! angles and put the horizon at zero; nothing else about it matters here.

use vstd::prelude::*;

verus! {

/// The elevation of a satellite at one instant.
#[derive(Clone, Copy, Debug, PartialEq, Eq, Structural)]
pub enum Elevation {
    /// The propagator gave no position for the instant.
    Undefined,
    /// The angle above the horizon; negative below it.
    Level(i64),
}

impl Elevation {
    /// The reading is defined and at least `threshold`.
    pub open spec fn reaches(self, threshold: i64) -> bool {
        match self {
            Elevation::Level(v) => v >= threshold,
            Elevation::Undefined => false,
        }
    }

    /// The reading is defined and at most `threshold`.
    pub open spec fn within(self, threshold: i64) -> bool {
        match self {
            Elevation::Level(v) => v <= threshold,
            Elevation::Undefined => false,
        }
    }

    /// The satellite is at or above the horizon.  An undefined reading counts
    /// as below it.
    pub open spec fn above_horizon(self) -> bool {
        self.reaches(0)
    }

    pub fn is_above_horizon(&self) -> (r: bool)
        ensures
            r == self.above_horizon(),
    {
        self.is_at_least(0)
    }

    pub fn is_at_least(&self, threshold: i64) -> (r: bool)
        ensures
            r == self.reaches(threshold),
    {
        match self {
            Elevation::Level(v) => *v >= threshold,
            Elevation::Undefined => false,
        }
    }

    pub fn is_at_most(&self, threshold: i64) -> (r: bool)
        ensures
            r == self.within(threshold),
    {
        match self {
            Elevation::Level(v) => *v <= threshold,
            Elevation::Undefined => false,
        }
    }
}

} // verus!
