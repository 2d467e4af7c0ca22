//! The pass scanner as a whole: the passes of one satellite from its oracle.
//!
//! The oracle is handed in as three functions: one samples the elevation at
//! a whole minute, one locates a crossing of the horizon, one refines the
//! culmination of a window and takes the bearings.  The scanner decides when
//! each is asked and what is made of the answers.

use vstd::prelude::*;
use crate::elevation::Elevation;
use crate::error::{PassesCalculationError, RootFailure};
use crate::pass::{pass_views, PassData};
use crate::scan::{
    assemble_passes, can_assemble, crossings, find_crossings, plan_passes, scan, scan_minutes,
    scan_outcome, Crossing, Located, LocatedCrossing, Measured, MeasuredWindow, PassWindow,
};
use crate::time::TimePoint;

verus! {

/// The number of samples of a window: one for each whole minute from its
/// start to its end, one in any case.
pub open spec fn sample_count(duration_minutes: i64) -> int {
    if duration_minutes > 0 {
        duration_minutes + 1
    } else {
        1
    }
}

/// `samples` holds an answer of the oracle for each whole minute of the
/// window.
pub open spec fn sampled_by<S: Fn(i64) -> Elevation>(
    sample: S,
    duration_minutes: i64,
    samples: Seq<Elevation>,
) -> bool {
    &&& samples.len() == sample_count(duration_minutes)
    &&& forall|minute: int|
        0 <= minute < samples.len() ==> call_ensures(
            sample,
            (minute as i64,),
            #[trigger] samples[minute],
        )
}

/// `located` holds an answer of the root finder for each crossing, in the
/// order of time, up to the first crossing on which it failed.
pub open spec fn located_by<L: Fn(Crossing) -> Result<Located, RootFailure>>(
    locate: L,
    found: Seq<Crossing>,
    located: Seq<LocatedCrossing>,
) -> bool {
    &&& located.len() <= found.len()
    &&& forall|j: int|
        0 <= j < located.len() ==> (#[trigger] located[j]).kind == found[j].kind && call_ensures(
            locate,
            (found[j],),
            located[j].root,
        )
    &&& forall|j: int| 0 <= j < located.len() - 1 ==> (#[trigger] located[j]).root is Ok
    &&& located.len() < found.len() ==> located.len() > 0 && located.last().root is Err
}

/// `measured` holds an answer of the oracle for each window, in the order of
/// time, up to the first window for which the propagator failed.
pub open spec fn measured_by<M: Fn(PassWindow) -> Option<Measured>>(
    measure: M,
    windows: Seq<PassWindow>,
    measured: Seq<MeasuredWindow>,
) -> bool {
    &&& measured.len() <= windows.len()
    &&& forall|k: int|
        0 <= k < measured.len() ==> (#[trigger] measured[k]).window == windows[k] && call_ensures(
            measure,
            (windows[k],),
            measured[k].measurement,
        )
    &&& forall|k: int| 0 <= k < measured.len() - 1 ==> (#[trigger] measured[k]).measurement is Some
    &&& measured.len() < windows.len() ==> measured.len() > 0 && measured.last().measurement
        is None
}

/// `res` is what the scan of a satellite returns where the oracle answered
/// with `samples`, `located` and `measured`.
pub open spec fn is_scan_result<S, L, M>(
    res: Result<Vec<PassData>, PassesCalculationError>,
    name: Seq<char>,
    start: TimePoint,
    duration_minutes: i64,
    sample: S,
    locate: L,
    measure: M,
    samples: Seq<Elevation>,
    located: Seq<LocatedCrossing>,
    measured: Seq<MeasuredWindow>,
) -> bool where
    S: Fn(i64) -> Elevation,
    L: Fn(Crossing) -> Result<Located, RootFailure>,
    M: Fn(PassWindow) -> Option<Measured>,
 {
    &&& sampled_by(sample, duration_minutes, samples)
    &&& located_by(locate, crossings(samples), located)
    &&& measured_by(measure, scan(samples, located).windows, measured)
    &&& match scan_outcome(name, start, scan(samples, located).failure, measured) {
        Ok(views) => res is Ok && pass_views(res.unwrap()@) == views,
        Err(error) => res == Err::<Vec<PassData>, PassesCalculationError>(error),
    }
}

/// The passes of one satellite over a window of `duration_minutes` that
/// starts at `start_time`.
///
/// The elevation is sampled at every whole minute of the window.  Each
/// change of sides is located, until the root finder fails; each pair of a
/// rise and the fall after it is measured, until the propagator fails.  A
/// failed measurement fails the scan, else a failed root does; else every
/// pair gives a pass.
pub fn get_satellite_passes<S, L, M>(
    satellite_name: &str,
    start_time: TimePoint,
    duration_minutes: i64,
    sample: S,
    locate: L,
    measure: M,
) -> (res: Result<Vec<PassData>, PassesCalculationError>) where
    S: Fn(i64) -> Elevation,
    L: Fn(Crossing) -> Result<Located, RootFailure>,
    M: Fn(PassWindow) -> Option<Measured>,

    requires
        forall|minute: i64| call_requires(sample, (minute,)),
        forall|crossing: Crossing| call_requires(locate, (crossing,)),
        forall|window: PassWindow| call_requires(measure, (window,)),
        forall|window: PassWindow, measured: Measured|
            call_ensures(measure, (window,), Some(measured)) ==> can_assemble(
                start_time,
                window,
                measured,
            ),
    ensures
        exists|
            samples: Seq<Elevation>,
            located: Seq<LocatedCrossing>,
            measured: Seq<MeasuredWindow>,
        |
            is_scan_result(
                res,
                satellite_name@,
                start_time,
                duration_minutes,
                sample,
                locate,
                measure,
                samples,
                located,
                measured,
            ),
{
    let minutes = scan_minutes(duration_minutes);
    let mut samples: Vec<Elevation> = Vec::new();
    let mut k: usize = 0;
    while k < minutes.len()
        invariant
            k <= minutes.len(),
            minutes.len() == sample_count(duration_minutes),
            forall|i: int| 0 <= i < minutes.len() ==> minutes[i] == i,
            samples.len() == k,
            forall|minute: i64| call_requires(sample, (minute,)),
            forall|minute: int|
                0 <= minute < k ==> call_ensures(
                    sample,
                    (minute as i64,),
                    #[trigger] samples[minute],
                ),
        decreases minutes.len() - k,
    {
        samples.push(sample(minutes[k]));
        k = k + 1;
    }
    let found = find_crossings(&samples);
    let mut located: Vec<LocatedCrossing> = Vec::new();
    let mut j: usize = 0;
    while j < found.len()
        invariant_except_break
            located.len() == j,
            forall|i: int| 0 <= i < located.len() ==> (#[trigger] located[i]).root is Ok,
        invariant
            j <= found.len(),
            located.len() <= found.len(),
            forall|crossing: Crossing| call_requires(locate, (crossing,)),
            forall|i: int|
                0 <= i < located.len() ==> (#[trigger] located[i]).kind == found[i].kind
                    && call_ensures(locate, (found[i],), located[i].root),
        ensures
            located_by(locate, found@, located@),
        decreases found.len() - j,
    {
        let root = locate(found[j]);
        located.push(LocatedCrossing { kind: found[j].kind, root });
        if root.is_err() {
            break ;
        }
        j = j + 1;
    }
    let plan = plan_passes(&samples, &located);
    let mut measured: Vec<MeasuredWindow> = Vec::new();
    let mut w: usize = 0;
    while w < plan.windows.len()
        invariant_except_break
            measured.len() == w,
            forall|i: int| 0 <= i < measured.len() ==> (#[trigger] measured[i]).measurement is Some,
        invariant
            w <= plan.windows.len(),
            measured.len() <= plan.windows.len(),
            forall|window: PassWindow| call_requires(measure, (window,)),
            forall|i: int|
                0 <= i < measured.len() ==> (#[trigger] measured[i]).window == plan.windows[i]
                    && call_ensures(measure, (plan.windows[i],), measured[i].measurement),
        ensures
            measured_by(measure, plan.windows@, measured@),
        decreases plan.windows.len() - w,
    {
        let measurement = measure(plan.windows[w]);
        measured.push(MeasuredWindow { window: plan.windows[w], measurement });
        if measurement.is_none() {
            break ;
        }
        w = w + 1;
    }
    let res = assemble_passes(satellite_name, start_time, plan.failure, &measured);
    assert(is_scan_result(
        res,
        satellite_name@,
        start_time,
        duration_minutes,
        sample,
        locate,
        measure,
        samples@,
        located@,
        measured@,
    ));
    res
}

} // verus!
