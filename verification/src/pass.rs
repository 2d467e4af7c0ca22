//! The record of one pass of a satellite over the observer.

use vstd::prelude::*;
use crate::elevation::Elevation;
use crate::time::TimePoint;

verus! {

/// One pass: the satellite rises over the horizon, culminates and falls below
/// it again.  Azimuths are integers on the caller's scale; the library hands
/// them through untouched.
#[derive(Debug, PartialEq, Eq)]
pub struct PassData {
    pub satellite_name: String,
    pub rise_time: TimePoint,
    pub rise_azimuth: i64,
    pub apogee_time: TimePoint,
    pub apogee_elevation: Elevation,
    pub apogee_azimuth: i64,
    pub fall_time: TimePoint,
    pub fall_azimuth: i64,
}

/// What a pass record says, with the name as a sequence of characters.
pub struct PassView {
    pub satellite_name: Seq<char>,
    pub rise_time: TimePoint,
    pub rise_azimuth: i64,
    pub apogee_time: TimePoint,
    pub apogee_elevation: Elevation,
    pub apogee_azimuth: i64,
    pub fall_time: TimePoint,
    pub fall_azimuth: i64,
}

impl View for PassData {
    type V = PassView;

    open spec fn view(&self) -> PassView {
        PassView {
            satellite_name: self.satellite_name@,
            rise_time: self.rise_time,
            rise_azimuth: self.rise_azimuth,
            apogee_time: self.apogee_time,
            apogee_elevation: self.apogee_elevation,
            apogee_azimuth: self.apogee_azimuth,
            fall_time: self.fall_time,
            fall_azimuth: self.fall_azimuth,
        }
    }
}

impl PassView {
    /// The culmination lies strictly between the rise and the fall.
    pub open spec fn ordered(self) -> bool {
        self.rise_time.before(self.apogee_time) && self.apogee_time.before(self.fall_time)
    }

    /// The whole seconds from rise to fall.
    pub open spec fn duration_seconds(self) -> int {
        self.rise_time.seconds_until(self.fall_time)
    }

    /// The whole minutes from rise to fall, rounded toward zero.
    pub open spec fn whole_minutes(self) -> int {
        let seconds = self.duration_seconds();
        if seconds >= 0 {
            seconds / 60
        } else {
            -((-seconds) / 60)
        }
    }
}

/// The views of a sequence of passes, one for one.
pub open spec fn pass_views(passes: Seq<PassData>) -> Seq<PassView> {
    passes.map_values(|pass: PassData| pass@)
}

impl PassData {
    /// A second record that says the same.
    pub fn duplicate(&self) -> (copy: PassData)
        ensures
            copy == *self,
    {
        PassData {
            satellite_name: self.satellite_name.clone(),
            rise_time: self.rise_time,
            rise_azimuth: self.rise_azimuth,
            apogee_time: self.apogee_time,
            apogee_elevation: self.apogee_elevation,
            apogee_azimuth: self.apogee_azimuth,
            fall_time: self.fall_time,
            fall_azimuth: self.fall_azimuth,
        }
    }

    /// The whole minutes from rise to fall: the number of one-minute steps
    /// that a scan of the pass takes.
    pub fn whole_minutes(&self) -> (minutes: i64)
        ensures
            minutes == self@.whole_minutes(),
    {
        let gap: i128 = self.fall_time.seconds as i128 - self.rise_time.seconds as i128;
        let seconds: i128 = if gap > 0 && self.fall_time.nanos < self.rise_time.nanos {
            gap - 1
        } else if gap < 0 && self.fall_time.nanos > self.rise_time.nanos {
            gap + 1
        } else {
            gap
        };
        let minutes: i128 = if seconds >= 0 {
            seconds / 60
        } else {
            -((-seconds) / 60)
        };
        minutes as i64
    }
}

} // verus!
