//! The pass scanner: from minute samples of the elevation to pass windows.
//!
//! The elevation is sampled at every whole minute of the observation window.
//! Wherever two neighbouring samples lie on different sides of the horizon the
//! satellite crossed it in between.  The caller has each crossing located by
//! its root finder; a rise followed by a fall then bounds one pass.

use vstd::prelude::*;
use crate::elevation::Elevation;
use crate::error::{PassesCalculationError, RootFailure};
use crate::pass::{pass_views, PassData, PassView};
use crate::time::TimePoint;

verus! {

/// The direction in which the horizon is crossed.
#[derive(Clone, Copy, Debug, PartialEq, Eq, Structural)]
pub enum CrossingKind {
    /// From below the horizon to above it.
    Rise,
    /// From above the horizon to below it.
    Fall,
}

/// A change of sign between the samples of `minute - 1` and `minute`.
#[derive(Clone, Copy, Debug, PartialEq, Eq, Structural)]
pub struct Crossing {
    pub minute: usize,
    pub kind: CrossingKind,
}

/// The samples of `minute - 1` and `minute` lie on different sides of the horizon.
pub open spec fn sign_changes_at(samples: Seq<Elevation>, minute: int) -> bool {
    0 < minute < samples.len() && samples[minute].above_horizon() != samples[minute
        - 1].above_horizon()
}

/// The crossing that a change of sign at `minute` stands for.
pub open spec fn crossing_at(samples: Seq<Elevation>, minute: int) -> Crossing {
    Crossing {
        minute: minute as usize,
        kind: if samples[minute - 1].above_horizon() {
            CrossingKind::Fall
        } else {
            CrossingKind::Rise
        },
    }
}

/// The crossings among the first `n` samples, in the order of time.
pub open spec fn crossings_within(samples: Seq<Elevation>, n: int) -> Seq<Crossing>
    decreases n,
{
    if n <= 1 {
        Seq::empty()
    } else {
        let earlier = crossings_within(samples, n - 1);
        if sign_changes_at(samples, n - 1) {
            earlier.push(crossing_at(samples, n - 1))
        } else {
            earlier
        }
    }
}

/// All crossings of a scan, in the order of time.
pub open spec fn crossings(samples: Seq<Elevation>) -> Seq<Crossing> {
    crossings_within(samples, samples.len() as int)
}

/// The minutes at which a window of `duration_minutes` is sampled: every
/// whole minute from its start to its end, the start in any case.
pub fn scan_minutes(duration_minutes: i64) -> (minutes: Vec<i64>)
    ensures
        minutes.len() == if duration_minutes > 0 {
            duration_minutes + 1
        } else {
            1
        },
        forall|k: int| 0 <= k < minutes.len() ==> minutes[k] == k,
{
    let mut minutes: Vec<i64> = Vec::new();
    minutes.push(0);
    let mut minute: i64 = 0;
    while minute < duration_minutes
        invariant
            0 <= minute,
            minute <= duration_minutes || minute == 0,
            minutes.len() == minute + 1,
            forall|k: int| 0 <= k < minutes.len() ==> minutes[k] == k,
        decreases duration_minutes - minute,
    {
        minute = minute + 1;
        minutes.push(minute);
    }
    minutes
}

/// Finds every minute at which the sampled elevation changes sides.
pub fn find_crossings(samples: &Vec<Elevation>) -> (found: Vec<Crossing>)
    ensures
        found@ == crossings(samples@),
{
    let mut found: Vec<Crossing> = Vec::new();
    if samples.len() == 0 {
        return found;
    }
    let mut previous: bool = samples[0].is_above_horizon();
    let mut minute: usize = 1;
    while minute < samples.len()
        invariant
            1 <= minute <= samples.len(),
            previous == samples@[minute - 1].above_horizon(),
            found@ == crossings_within(samples@, minute as int),
        decreases samples.len() - minute,
    {
        let current = samples[minute].is_above_horizon();
        if current != previous {
            let kind = if previous {
                CrossingKind::Fall
            } else {
                CrossingKind::Rise
            };
            found.push(Crossing { minute, kind });
        }
        previous = current;
        minute = minute + 1;
    }
    found
}

/// Where the root finder put a crossing: the whole minutes and the whole
/// seconds from the start of the window to the crossing, each rounded toward
/// zero.
#[derive(Clone, Copy, Debug, PartialEq, Eq, Structural)]
pub struct Located {
    pub minute: i64,
    pub second: i64,
}

/// A crossing together with what the root finder made of it.
#[derive(Clone, Copy, Debug, PartialEq, Eq)]
pub struct LocatedCrossing {
    pub kind: CrossingKind,
    pub root: Result<Located, RootFailure>,
}

/// The sample of `minute`; minutes outside the scan have none.
pub open spec fn sample_at(samples: Seq<Elevation>, minute: int) -> Elevation {
    if 0 <= minute < samples.len() {
        samples[minute]
    } else {
        Elevation::Undefined
    }
}

/// The highest level above the horizon among the samples of the minutes
/// `from..=upto`, and the first minute that attains it; `(0, 0)` where no
/// sample of that range lies above the horizon.
pub open spec fn peak_scan(samples: Seq<Elevation>, from: int, upto: int) -> (int, int)
    decreases upto - from + 1,
{
    if upto < from {
        (0, 0)
    } else {
        let (best, at) = peak_scan(samples, from, upto - 1);
        let sample = sample_at(samples, upto);
        if sample is Level && sample->0 > best {
            (sample->0 as int, upto)
        } else {
            (best, at)
        }
    }
}

/// The minute that seeds the search for the culmination.
pub open spec fn peak_minute(samples: Seq<Elevation>, from: int, upto: int) -> int {
    peak_scan(samples, from, upto).1
}

/// Minutes before the first sample add nothing to a peak scan.
proof fn lemma_peak_scan_skips_early(samples: Seq<Elevation>, from: int, upto: int)
    requires
        from < 0,
    ensures
        peak_scan(samples, from, upto) == peak_scan(samples, 0, upto),
    decreases upto - from + 1,
{
    if upto >= from {
        lemma_peak_scan_skips_early(samples, from, upto - 1);
    }
}

/// Minutes after the last sample add nothing to a peak scan.
proof fn lemma_peak_scan_skips_late(samples: Seq<Elevation>, from: int, upto: int)
    requires
        upto >= samples.len(),
        from <= samples.len(),
    ensures
        peak_scan(samples, from, upto) == peak_scan(samples, from, samples.len() - 1),
    decreases upto - from + 1,
{
    if upto > samples.len() {
        lemma_peak_scan_skips_late(samples, from, upto - 1);
    }
}

/// A scan that starts after the last sample finds nothing.
proof fn lemma_peak_scan_beyond(samples: Seq<Elevation>, from: int, upto: int)
    requires
        from >= samples.len(),
    ensures
        peak_scan(samples, from, upto) == (0int, 0int),
    decreases upto - from + 1,
{
    if upto >= from {
        lemma_peak_scan_beyond(samples, from, upto - 1);
    }
}

/// Scans the samples of the minutes `from..=upto` for the highest one.
pub fn coarse_peak(samples: &Vec<Elevation>, from: i64, upto: i64) -> (peak: i64)
    ensures
        peak == peak_minute(samples@, from as int, upto as int),
{
    let count: u64 = samples.len() as u64;
    if upto < from {
        return 0;
    }
    if upto < 0 || count == 0 || (from >= 0 && from as u64 >= count) {
        proof {
            if from < 0 {
                lemma_peak_scan_skips_early(samples@, from as int, upto as int);
                if upto >= 0 {
                    lemma_peak_scan_beyond(samples@, 0, upto as int);
                }
            } else {
                lemma_peak_scan_beyond(samples@, from as int, upto as int);
            }
        }
        return 0;
    }
    let first: u64 = if from < 0 {
        0
    } else {
        from as u64
    };
    let last: u64 = if upto as u64 >= count {
        count - 1
    } else {
        upto as u64
    };
    proof {
        if from < 0 {
            lemma_peak_scan_skips_early(samples@, from as int, upto as int);
        }
        if upto >= count {
            lemma_peak_scan_skips_late(samples@, first as int, upto as int);
        }
    }
    let mut best: i64 = 0;
    let mut at: i64 = 0;
    let mut minute: u64 = first;
    while minute <= last
        invariant
            first <= minute <= last + 1,
            last < count,
            count == samples.len(),
            last <= i64::MAX,
            (best as int, at as int) == peak_scan(samples@, first as int, minute - 1),
        decreases last + 1 - minute,
    {
        match samples[minute as usize] {
            Elevation::Level(level) => {
                if level > best {
                    best = level;
                    at = minute as i64;
                }
            },
            Elevation::Undefined => {},
        }
        minute = minute + 1;
    }
    at
}

/// One end of the interval in which the culmination is sought.
#[derive(Clone, Copy, Debug, PartialEq, Eq, Structural)]
pub enum BracketEnd {
    /// The located rise itself.
    Rise,
    /// The located fall itself.
    Fall,
    /// A whole minute since the start of the window.
    Minute(i64),
}

/// One pass as the scan sees it: its two crossings and where to look for the
/// culmination.
#[derive(Clone, Copy, Debug, PartialEq, Eq, Structural)]
pub struct PassWindow {
    pub rise: Located,
    /// The place of the rise in the list of located crossings.
    pub rise_index: usize,
    pub fall: Located,
    /// The place of the fall in the list of located crossings.
    pub fall_index: usize,
    /// The minute with the highest sample between rise and fall.
    pub peak_minute: i64,
    /// The later of the rise and the minute before the peak.
    pub lower: BracketEnd,
    /// The earlier of the fall and the minute after the peak.
    pub upper: BracketEnd,
}

/// The lower end of the culmination bracket: the rise where it is not earlier
/// than the minute before the peak, that minute otherwise.
pub open spec fn lower_end(rise_minute: int, peak: int) -> BracketEnd {
    if rise_minute >= peak - 1 {
        BracketEnd::Rise
    } else {
        BracketEnd::Minute((peak - 1) as i64)
    }
}

/// The upper end of the culmination bracket: the minute after the peak where
/// the fall is not earlier, the fall otherwise.
pub open spec fn upper_end(fall_minute: int, peak: int) -> BracketEnd {
    if peak + 1 <= fall_minute {
        BracketEnd::Minute((peak + 1) as i64)
    } else {
        BracketEnd::Fall
    }
}

/// The window that a located rise and a located fall bound.
pub open spec fn window_between(
    samples: Seq<Elevation>,
    rise: Located,
    rise_index: usize,
    fall: Located,
    fall_index: usize,
) -> PassWindow {
    let peak = peak_minute(samples, rise.minute as int, fall.minute as int);
    PassWindow {
        rise,
        rise_index,
        fall,
        fall_index,
        peak_minute: peak as i64,
        lower: lower_end(rise.minute as int, peak),
        upper: upper_end(fall.minute as int, peak),
    }
}

/// The peak of a scan is a minute of the scan, or zero.
proof fn lemma_peak_in_range(samples: Seq<Elevation>, from: int, upto: int)
    ensures
        peak_minute(samples, from, upto) == 0 || from <= peak_minute(samples, from, upto) <= upto,
        peak_minute(samples, from, upto) == 0 || 0 <= peak_minute(samples, from, upto)
            < samples.len(),
    decreases upto - from + 1,
{
    if upto >= from {
        lemma_peak_in_range(samples, from, upto - 1);
    }
}

/// Builds the window between a located rise and a located fall.
pub fn bound_window(
    samples: &Vec<Elevation>,
    rise: Located,
    rise_index: usize,
    fall: Located,
    fall_index: usize,
) -> (window: PassWindow)
    ensures
        window == window_between(samples@, rise, rise_index, fall, fall_index),
{
    let peak = coarse_peak(samples, rise.minute, fall.minute);
    proof {
        lemma_peak_in_range(samples@, rise.minute as int, fall.minute as int);
    }
    let lower = if rise.minute >= peak - 1 {
        BracketEnd::Rise
    } else {
        BracketEnd::Minute(peak - 1)
    };
    let upper = if peak < fall.minute {
        BracketEnd::Minute(peak + 1)
    } else {
        BracketEnd::Fall
    };
    PassWindow { rise, rise_index, fall, fall_index, peak_minute: peak, lower, upper }
}

/// The scanner is either looking for a rise or holds one and awaits the fall.
#[derive(Clone, Copy, Debug, PartialEq, Eq, Structural)]
pub enum ScanState {
    Searching,
    InPass { rise: Located, rise_index: usize },
}

/// What a scan has come to after some of its crossings.
pub struct ScanProgress {
    pub state: ScanState,
    pub windows: Seq<PassWindow>,
    pub failure: Option<RootFailure>,
}

/// One step of the scanner: it takes the crossing at place `index`.
///
/// A failed root ends the scan.  A rise is held, replacing one held before.
/// A fall closes the pass of the held rise; without one it is passed over.
pub open spec fn scan_step(
    samples: Seq<Elevation>,
    progress: ScanProgress,
    index: int,
    crossing: LocatedCrossing,
) -> ScanProgress {
    if progress.failure is Some {
        progress
    } else {
        match crossing.root {
            Err(failure) => ScanProgress { failure: Some(failure), ..progress },
            Ok(root) => match crossing.kind {
                CrossingKind::Rise => ScanProgress {
                    state: ScanState::InPass { rise: root, rise_index: index as usize },
                    ..progress
                },
                CrossingKind::Fall => match progress.state {
                    ScanState::InPass { rise, rise_index } => ScanProgress {
                        state: ScanState::Searching,
                        windows: progress.windows.push(
                            window_between(samples, rise, rise_index, root, index as usize),
                        ),
                        failure: None,
                    },
                    ScanState::Searching => progress,
                },
            },
        }
    }
}

/// The scan after the first `n` located crossings.
pub open spec fn scan_through(
    samples: Seq<Elevation>,
    located: Seq<LocatedCrossing>,
    n: int,
) -> ScanProgress
    decreases n,
{
    if n <= 0 {
        ScanProgress { state: ScanState::Searching, windows: Seq::empty(), failure: None }
    } else {
        scan_step(samples, scan_through(samples, located, n - 1), n - 1, located[n - 1])
    }
}

/// The scan after all located crossings.
pub open spec fn scan(samples: Seq<Elevation>, located: Seq<LocatedCrossing>) -> ScanProgress {
    scan_through(samples, located, located.len() as int)
}

/// The outcome of a scan: the windows of the passes found before the first
/// failed root, and that failure if there was one.
#[derive(Debug, PartialEq, Eq)]
pub struct ScanPlan {
    pub windows: Vec<PassWindow>,
    pub failure: Option<RootFailure>,
}

/// Once a root has failed, further crossings change nothing.
proof fn lemma_failure_ends_scan(
    samples: Seq<Elevation>,
    located: Seq<LocatedCrossing>,
    n: int,
    m: int,
)
    requires
        0 <= n <= m,
        scan_through(samples, located, n).failure is Some,
    ensures
        scan_through(samples, located, m) == scan_through(samples, located, n),
    decreases m - n,
{
    if n < m {
        lemma_failure_ends_scan(samples, located, n, m - 1);
    }
}

/// Pairs the located crossings of a scan into pass windows.
///
/// `located` holds the crossings of the scan in the order of time, each with
/// what the root finder returned for it.
pub fn plan_passes(samples: &Vec<Elevation>, located: &Vec<LocatedCrossing>) -> (plan: ScanPlan)
    ensures
        plan.windows@ == scan(samples@, located@).windows,
        plan.failure == scan(samples@, located@).failure,
{
    let mut windows: Vec<PassWindow> = Vec::new();
    let mut state = ScanState::Searching;
    let mut index: usize = 0;
    while index < located.len()
        invariant
            index <= located.len(),
            scan_through(samples@, located@, index as int) == (ScanProgress {
                state,
                windows: windows@,
                failure: None,
            }),
        decreases located.len() - index,
    {
        let crossing = located[index];
        match crossing.root {
            Err(failure) => {
                proof {
                    lemma_failure_ends_scan(
                        samples@,
                        located@,
                        index + 1,
                        located.len() as int,
                    );
                }
                return ScanPlan { windows, failure: Some(failure) };
            },
            Ok(root) => match crossing.kind {
                CrossingKind::Rise => {
                    state = ScanState::InPass { rise: root, rise_index: index };
                },
                CrossingKind::Fall => match state {
                    ScanState::InPass { rise, rise_index } => {
                        windows.push(bound_window(samples, rise, rise_index, root, index));
                        state = ScanState::Searching;
                    },
                    ScanState::Searching => {},
                },
            },
        }
        index = index + 1;
    }
    ScanPlan { windows, failure: None }
}

/// What the caller measured for one window: the refined culmination in
/// whole seconds since the start of the window, the elevation there, and the
/// azimuths at rise, culmination and fall.
#[derive(Clone, Copy, Debug, PartialEq, Eq, Structural)]
pub struct Measured {
    pub apogee_second: i64,
    pub apogee_elevation: Elevation,
    pub rise_azimuth: i64,
    pub apogee_azimuth: i64,
    pub fall_azimuth: i64,
}

/// A window with its measurement; `None` where the propagator failed at one
/// of the three instants.
#[derive(Clone, Copy, Debug, PartialEq, Eq)]
pub struct MeasuredWindow {
    pub window: PassWindow,
    pub measurement: Option<Measured>,
}

/// The three instants of the pass can be represented.
pub open spec fn can_assemble(start: TimePoint, window: PassWindow, measured: Measured) -> bool {
    &&& start.can_shift(window.rise.second as int)
    &&& start.can_shift(measured.apogee_second as int)
    &&& start.can_shift(window.fall.second as int)
}

/// The pass record of a measured window.
pub open spec fn assembled(
    name: Seq<char>,
    start: TimePoint,
    window: PassWindow,
    measured: Measured,
) -> PassView {
    PassView {
        satellite_name: name,
        rise_time: start.shifted(window.rise.second as int),
        rise_azimuth: measured.rise_azimuth,
        apogee_time: start.shifted(measured.apogee_second as int),
        apogee_elevation: measured.apogee_elevation,
        apogee_azimuth: measured.apogee_azimuth,
        fall_time: start.shifted(window.fall.second as int),
        fall_azimuth: measured.fall_azimuth,
    }
}

/// Every window has its measurement.
pub open spec fn all_measured(measured: Seq<MeasuredWindow>) -> bool {
    forall|k: int| 0 <= k < measured.len() ==> (#[trigger] measured[k]).measurement is Some
}

/// The pass records of the measured windows, one for one.
pub open spec fn assembled_passes(
    name: Seq<char>,
    start: TimePoint,
    measured: Seq<MeasuredWindow>,
) -> Seq<PassView> {
    Seq::new(
        measured.len(),
        |k: int| assembled(name, start, measured[k].window, measured[k].measurement.unwrap()),
    )
}

/// What a scan returns.  A window without measurement fails the scan; it came
/// before any failed root.  Otherwise the failed root fails it.  Otherwise
/// every window gives a pass.
pub open spec fn scan_outcome(
    name: Seq<char>,
    start: TimePoint,
    failure: Option<RootFailure>,
    measured: Seq<MeasuredWindow>,
) -> Result<Seq<PassView>, PassesCalculationError> {
    if !all_measured(measured) {
        Err(PassesCalculationError::PropogationError)
    } else if failure is Some {
        Err(PassesCalculationError::RootCalculationError(failure.unwrap()))
    } else {
        Ok(assembled_passes(name, start, measured))
    }
}

/// Builds the pass record of one measured window.
pub fn assemble_pass(
    satellite_name: &str,
    start_time: TimePoint,
    window: &PassWindow,
    measured: &Measured,
) -> (pass: PassData)
    requires
        can_assemble(start_time, *window, *measured),
    ensures
        pass@ == assembled(satellite_name@, start_time, *window, *measured),
{
    PassData {
        satellite_name: satellite_name.to_owned(),
        rise_time: start_time.plus_seconds(window.rise.second),
        rise_azimuth: measured.rise_azimuth,
        apogee_time: start_time.plus_seconds(measured.apogee_second),
        apogee_elevation: measured.apogee_elevation,
        apogee_azimuth: measured.apogee_azimuth,
        fall_time: start_time.plus_seconds(window.fall.second),
        fall_azimuth: measured.fall_azimuth,
    }
}

/// The passes of the measured windows of a scan.
///
/// `failure` and the windows of `measured` come from [`plan_passes`]; the
/// caller has refined the culmination of each window and taken the bearings.
pub fn assemble_passes(
    satellite_name: &str,
    start_time: TimePoint,
    failure: Option<RootFailure>,
    measured: &Vec<MeasuredWindow>,
) -> (res: Result<Vec<PassData>, PassesCalculationError>)
    requires
        forall|k: int|
            0 <= k < measured.len() && (#[trigger] measured[k]).measurement is Some
                ==> can_assemble(
                start_time,
                measured[k].window,
                measured[k].measurement.unwrap(),
            ),
    ensures
        match scan_outcome(satellite_name@, start_time, failure, measured@) {
            Ok(views) => res is Ok && pass_views(res.unwrap()@) == views,
            Err(error) => res == Err::<Vec<PassData>, PassesCalculationError>(error),
        },
{
    let mut passes: Vec<PassData> = Vec::new();
    let mut k: usize = 0;
    while k < measured.len()
        invariant
            k <= measured.len(),
            passes.len() == k,
            forall|j: int| 0 <= j < k ==> (#[trigger] measured[j]).measurement is Some,
            forall|j: int|
                0 <= j < k ==> (#[trigger] passes[j])@ == assembled(
                    satellite_name@,
                    start_time,
                    measured[j].window,
                    measured[j].measurement.unwrap(),
                ),
            forall|j: int|
                0 <= j < measured.len() && (#[trigger] measured[j]).measurement is Some
                    ==> can_assemble(
                    start_time,
                    measured[j].window,
                    measured[j].measurement.unwrap(),
                ),
        decreases measured.len() - k,
    {
        let entry = measured[k];
        match entry.measurement {
            None => {
                assert(!all_measured(measured@)) by {
                    assert(measured@[k as int].measurement is None);
                }
                return Err(PassesCalculationError::PropogationError);
            },
            Some(measurement) => {
                passes.push(assemble_pass(satellite_name, start_time, &entry.window, &measurement));
            },
        }
        k = k + 1;
    }
    assert(all_measured(measured@));
    match failure {
        Some(failure) => Err(PassesCalculationError::RootCalculationError(failure)),
        None => {
            assert(pass_views(passes@) =~= assembled_passes(
                satellite_name@,
                start_time,
                measured@,
            ));
            Ok(passes)
        },
    }
}

} // verus!
