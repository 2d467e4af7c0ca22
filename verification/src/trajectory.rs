//! Trajectories: one position of the satellite for every second.

use vstd::prelude::*;
use crate::error::PassesCalculationError;

verus! {

/// A point above the Earth.  The three fields are integers on the caller's
/// scales; the library hands them through untouched.
#[derive(Clone, Copy, Debug, PartialEq, Eq, Structural)]
pub struct GeodeticPosition {
    pub latitude: i64,
    pub longitude: i64,
    pub altitude: i64,
}

/// A direction from the observer, on the caller's scales.
#[derive(Clone, Copy, Debug, PartialEq, Eq, Structural)]
pub struct Bearing {
    pub azimuth: i64,
    pub elevation: i64,
}

/// The number of samples of a trajectory: one for each second.
pub open spec fn track_length(duration_seconds: i64) -> int {
    if duration_seconds > 0 {
        duration_seconds as int
    } else {
        0
    }
}

/// `fixes` holds an answer of the propagator for each second from `first`
/// on, up to the first second for which it failed.
pub open spec fn tracked_by<T, F: Fn(i64) -> Option<T>>(
    fix_at: F,
    first: i64,
    duration_seconds: i64,
    fixes: Seq<Option<T>>,
) -> bool {
    &&& fixes.len() <= track_length(duration_seconds)
    &&& forall|k: int|
        0 <= k < fixes.len() ==> call_ensures(fix_at, ((first + k) as i64,), #[trigger] fixes[k])
    &&& forall|k: int| 0 <= k < fixes.len() - 1 ==> (#[trigger] fixes[k]) is Some
    &&& fixes.len() < track_length(duration_seconds) ==> fixes.len() > 0 && fixes.last() is None
}

/// What a trajectory returns: the failure to propagate where the last answer
/// is one, every sample in its order where none is.
pub open spec fn is_track<T>(
    res: Result<Vec<T>, PassesCalculationError>,
    fixes: Seq<Option<T>>,
) -> bool {
    if fixes.len() > 0 && fixes.last() is None {
        res == Err::<Vec<T>, PassesCalculationError>(PassesCalculationError::PropogationError)
    } else {
        res is Ok && res.unwrap()@ == Seq::new(fixes.len(), |k: int| fixes[k]->Some_0)
    }
}

fn track<T, F: Fn(i64) -> Option<T>>(first: i64, duration_seconds: i64, fix_at: F) -> (res: Result<
    Vec<T>,
    PassesCalculationError,
>)
    requires
        0 <= first <= 1,
        forall|second: i64| call_requires(fix_at, (second,)),
    ensures
        exists|fixes: Seq<Option<T>>|
            tracked_by(fix_at, first, duration_seconds, fixes) && #[trigger] is_track(res, fixes),
{
    let mut samples: Vec<T> = Vec::new();
    let ghost mut fixes: Seq<Option<T>> = Seq::empty();
    let mut k: i64 = 0;
    while k < duration_seconds
        invariant
            0 <= first <= 1,
            0 <= k,
            k <= duration_seconds || k == 0,
            samples.len() == k,
            fixes.len() == k,
            forall|second: i64| call_requires(fix_at, (second,)),
            forall|i: int|
                0 <= i < k ==> call_ensures(fix_at, ((first + i) as i64,), #[trigger] fixes[i]),
            forall|i: int| 0 <= i < k ==> (#[trigger] fixes[i]) == Some(samples[i]),
        decreases duration_seconds - k,
    {
        let fix = fix_at(first + k);
        proof {
            fixes = fixes.push(fix);
        }
        match fix {
            Some(sample) => {
                samples.push(sample);
            },
            None => {
                let res = Err(PassesCalculationError::PropogationError);
                assert(tracked_by(fix_at, first, duration_seconds, fixes));
                assert(is_track::<T>(res, fixes));
                return res;
            },
        }
        k = k + 1;
    }
    assert(samples@ =~= Seq::new(fixes.len(), |k: int| fixes[k]->Some_0));
    assert(tracked_by(fix_at, first, duration_seconds, fixes));
    let res = Ok(samples);
    assert(is_track(res, fixes));
    res
}

/// The ground track of a satellite: its position at the start and at every
/// whole second after it, up to but without the end.  `position_at` gives
/// the position a number of seconds after the start, `None` where the
/// propagator fails; the first failure ends the work and is returned.
pub fn get_trajectory<F: Fn(i64) -> Option<GeodeticPosition>>(
    duration_seconds: i64,
    position_at: F,
) -> (res: Result<Vec<GeodeticPosition>, PassesCalculationError>)
    requires
        forall|second: i64| call_requires(position_at, (second,)),
    ensures
        exists|fixes: Seq<Option<GeodeticPosition>>|
            tracked_by(position_at, 0, duration_seconds, fixes) && #[trigger] is_track(res, fixes),
{
    track(0, duration_seconds, position_at)
}

/// The track of a satellite across the observer's sky: its bearing at every
/// whole second after the start, up to the end itself.  `look_at` gives the
/// bearing a number of seconds after the start, `None` where the propagator
/// fails; the first failure ends the work and is returned.
pub fn get_observer_trajectory<F: Fn(i64) -> Option<Bearing>>(
    duration_seconds: i64,
    look_at: F,
) -> (res: Result<Vec<Bearing>, PassesCalculationError>)
    requires
        forall|second: i64| call_requires(look_at, (second,)),
    ensures
        exists|fixes: Seq<Option<Bearing>>|
            tracked_by(look_at, 1, duration_seconds, fixes) && #[trigger] is_track(res, fixes),
{
    track(1, duration_seconds, look_at)
}

} // verus!
