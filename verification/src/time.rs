//! Instants on the UTC time line.

use vstd::prelude::*;

verus! {

/// An instant: whole seconds since the Unix epoch and the nanoseconds into
/// that second.  Every operation of this library moves an instant by whole
/// seconds and leaves the nanoseconds as they are.
#[derive(Clone, Copy, Debug, PartialEq, Eq, Structural)]
pub struct TimePoint {
    pub seconds: i64,
    pub nanos: u32,
}

impl TimePoint {
    /// `self` is strictly earlier than `other`.
    pub open spec fn before(self, other: TimePoint) -> bool {
        self.seconds < other.seconds || (self.seconds == other.seconds && self.nanos < other.nanos)
    }

    /// The instant `by` seconds away can be represented.
    pub open spec fn can_shift(self, by: int) -> bool {
        i64::MIN <= self.seconds + by <= i64::MAX
    }

    /// The instant `by` seconds after `self` (before it, where `by` is negative).
    pub open spec fn shifted(self, by: int) -> TimePoint {
        TimePoint { seconds: (self.seconds + by) as i64, nanos: self.nanos }
    }

    /// The whole seconds from `self` to `later`, rounded toward zero.
    pub open spec fn seconds_until(self, later: TimePoint) -> int {
        let gap = later.seconds - self.seconds;
        if gap > 0 && later.nanos < self.nanos {
            gap - 1
        } else if gap < 0 && later.nanos > self.nanos {
            gap + 1
        } else {
            gap
        }
    }

    pub fn new(seconds: i64, nanos: u32) -> (t: TimePoint)
        ensures
            t == (TimePoint { seconds, nanos }),
    {
        TimePoint { seconds, nanos }
    }

    pub fn is_before(&self, other: &TimePoint) -> (r: bool)
        ensures
            r == self.before(*other),
    {
        self.seconds < other.seconds || (self.seconds == other.seconds && self.nanos < other.nanos)
    }

    pub fn fits_shift(&self, by: i64) -> (r: bool)
        ensures
            r == self.can_shift(by as int),
    {
        self.seconds.checked_add(by).is_some()
    }

    pub fn plus_seconds(&self, by: i64) -> (t: TimePoint)
        requires
            self.can_shift(by as int),
        ensures
            t == self.shifted(by as int),
    {
        TimePoint { seconds: self.seconds + by, nanos: self.nanos }
    }

    pub fn minus_seconds(&self, by: i64) -> (t: TimePoint)
        requires
            self.can_shift(-(by as int)),
        ensures
            t == self.shifted(-(by as int)),
    {
        TimePoint { seconds: self.seconds - by, nanos: self.nanos }
    }
}

} // verus!
