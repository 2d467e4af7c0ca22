//! What holds of every scan.

use vstd::prelude::*;
use crate::elevation::Elevation;
use crate::error::PassesCalculationError;
use crate::pass::PassView;
use crate::error::RootFailure;
use crate::pass::{pass_views, PassData};
use crate::passes::is_scan_result;
use crate::scan::{
    assembled, can_assemble, crossing_at, crossings, crossings_within, peak_scan, sample_at, scan,
    scan_outcome, scan_through, sign_changes_at, window_between, Crossing, CrossingKind, Located,
    LocatedCrossing, Measured, MeasuredWindow, PassWindow, ScanState,
};
use crate::time::TimePoint;

verus! {

/// Each crossing among the first `n` samples marks a change of side before
/// minute `n`, and the crossings stand in the order of time.
proof fn lemma_within_sound(samples: Seq<Elevation>, n: int)
    requires
        samples.len() <= usize::MAX,
        n <= samples.len(),
    ensures
        crossings_within(samples, n).len() <= if n >= 1 {
            n - 1
        } else {
            0
        },
        forall|k: int|
            0 <= k < crossings_within(samples, n).len() ==> {
                let found = #[trigger] crossings_within(samples, n)[k];
                &&& found.minute < n
                &&& sign_changes_at(samples, found.minute as int)
                &&& found == crossing_at(samples, found.minute as int)
            },
        forall|k: int, l: int|
            0 <= k < l < crossings_within(samples, n).len() ==> (#[trigger] crossings_within(
                samples,
                n,
            )[k]).minute < (#[trigger] crossings_within(samples, n)[l]).minute,
    decreases n,
{
    if n > 1 {
        lemma_within_sound(samples, n - 1);
        let earlier = crossings_within(samples, n - 1);
        let all = crossings_within(samples, n);
        if sign_changes_at(samples, n - 1) {
            let added = crossing_at(samples, n - 1);
            assert(all == earlier.push(added));
            assert(added.minute == n - 1);
            assert forall|k: int| 0 <= k < all.len() implies {
                let found = #[trigger] all[k];
                &&& found.minute < n
                &&& sign_changes_at(samples, found.minute as int)
                &&& found == crossing_at(samples, found.minute as int)
            } by {
                if k < earlier.len() {
                    assert(all[k] == earlier[k]);
                }
            }
            assert forall|k: int, l: int| 0 <= k < l < all.len() implies (#[trigger] all[k]).minute
                < (#[trigger] all[l]).minute by {
                assert(all[k] == earlier[k]);
                if l < earlier.len() {
                    assert(all[l] == earlier[l]);
                }
            }
        }
    }
}

/// A change of side before minute `n` is among the crossings of the first
/// `n` samples.
proof fn lemma_within_complete(samples: Seq<Elevation>, n: int, minute: int)
    requires
        samples.len() <= usize::MAX,
        n <= samples.len(),
        minute < n,
        sign_changes_at(samples, minute),
    ensures
        exists|k: int|
            0 <= k < crossings_within(samples, n).len() && (#[trigger] crossings_within(
                samples,
                n,
            )[k]).minute == minute,
    decreases n,
{
    let all = crossings_within(samples, n);
    if minute == n - 1 {
        let earlier = crossings_within(samples, n - 1);
        assert(all == earlier.push(crossing_at(samples, n - 1)));
        assert(all[earlier.len() as int].minute == minute);
    } else {
        lemma_within_complete(samples, n - 1, minute);
        let earlier = crossings_within(samples, n - 1);
        let k = choose|k: int| 0 <= k < earlier.len() && (#[trigger] earlier[k]).minute == minute;
        assert(all[k] == earlier[k]);
    }
}

/// Among the first `n` samples a rise is followed by a fall and a fall by a
/// rise, and the last crossing tells on which side the last sample lies.
proof fn lemma_within_alternate(samples: Seq<Elevation>, n: int)
    requires
        samples.len() <= usize::MAX,
        n <= samples.len(),
    ensures
        forall|k: int, l: int|
            0 <= k && l == k + 1 && l < crossings_within(samples, n).len() ==> (
            #[trigger] crossings_within(samples, n)[k]).kind != (#[trigger] crossings_within(
                samples,
                n,
            )[l]).kind,
        crossings_within(samples, n).len() > 0 ==> (crossings_within(samples, n).last().kind
            == CrossingKind::Rise <==> samples[n - 1].above_horizon()),
    decreases n,
{
    if n > 1 {
        lemma_within_alternate(samples, n - 1);
        let earlier = crossings_within(samples, n - 1);
        let all = crossings_within(samples, n);
        if sign_changes_at(samples, n - 1) {
            let added = crossing_at(samples, n - 1);
            assert(all == earlier.push(added));
            assert forall|k: int, l: int| 0 <= k && l == k + 1 && l < all.len() implies (
            #[trigger] all[k]).kind != (#[trigger] all[l]).kind by {
                assert(all[k] == earlier[k]);
                if l < earlier.len() {
                    assert(all[l] == earlier[l]);
                } else {
                    assert(all[l] == added);
                    assert(earlier[k] == earlier.last());
                }
            }
        }
    }
}

/// Each crossing marks a change of side, and the crossings stand in the
/// order of time.
pub proof fn lemma_crossings_mark_sign_changes(samples: Seq<Elevation>)
    requires
        samples.len() <= usize::MAX,
    ensures
        forall|k: int|
            0 <= k < crossings(samples).len() ==> {
                let found = #[trigger] crossings(samples)[k];
                &&& sign_changes_at(samples, found.minute as int)
                &&& found == crossing_at(samples, found.minute as int)
            },
        forall|k: int, l: int|
            0 <= k < l < crossings(samples).len() ==> (#[trigger] crossings(samples)[k]).minute < (
            #[trigger] crossings(samples)[l]).minute,
{
    lemma_within_sound(samples, samples.len() as int);
}

/// No change of side is missed.
pub proof fn lemma_every_sign_change_is_found(samples: Seq<Elevation>, minute: int)
    requires
        samples.len() <= usize::MAX,
        sign_changes_at(samples, minute),
    ensures
        exists|k: int|
            0 <= k < crossings(samples).len() && (#[trigger] crossings(samples)[k]).minute
                == minute,
{
    lemma_within_complete(samples, samples.len() as int, minute);
    let all = crossings_within(samples, samples.len() as int);
    let k = choose|k: int| 0 <= k < all.len() && (#[trigger] all[k]).minute == minute;
    assert(crossings(samples)[k].minute == minute);
}

/// Rises and falls alternate.
pub proof fn lemma_crossings_alternate(samples: Seq<Elevation>, k: int)
    requires
        samples.len() <= usize::MAX,
        0 <= k,
        k + 1 < crossings(samples).len(),
    ensures
        crossings(samples)[k].kind != crossings(samples)[k + 1].kind,
{
    lemma_within_alternate(samples, samples.len() as int);
}

/// Without a change of side there is no crossing.
proof fn lemma_within_unchanged(samples: Seq<Elevation>, n: int)
    requires
        forall|minute: int| !sign_changes_at(samples, minute),
    ensures
        crossings_within(samples, n) == Seq::<Crossing>::empty(),
    decreases n,
{
    if n > 1 {
        lemma_within_unchanged(samples, n - 1);
    }
}

/// A satellite that stays on one side of the horizon has no crossing, and
/// its scan returns no pass.
pub proof fn lemma_constant_side_gives_no_pass(
    samples: Seq<Elevation>,
    name: Seq<char>,
    start: TimePoint,
)
    requires
        forall|i: int, j: int|
            0 <= i < samples.len() && 0 <= j < samples.len() ==> (#[trigger] samples[i]).above_horizon()
                == (#[trigger] samples[j]).above_horizon(),
    ensures
        crossings(samples) == Seq::<Crossing>::empty(),
        scan(samples, Seq::empty()).windows == Seq::<PassWindow>::empty(),
        scan(samples, Seq::empty()).failure is None,
        scan_outcome(name, start, None, Seq::empty()) == Ok::<
            Seq<PassView>,
            PassesCalculationError,
        >(Seq::empty()),
{
    assert forall|minute: int| !sign_changes_at(samples, minute) by {
        if 0 < minute < samples.len() {
            assert(samples[minute].above_horizon() == samples[minute - 1].above_horizon());
        }
    }
    lemma_within_unchanged(samples, samples.len() as int);
    assert(scan_outcome(name, start, None, Seq::empty())->Ok_0 =~= Seq::<PassView>::empty());
}

/// The peak of a scan is the first minute whose sample is the highest above
/// the horizon, and minute zero where no sample lies above it.
pub proof fn lemma_peak_is_first_maximum(samples: Seq<Elevation>, from: int, upto: int)
    ensures
        ({
            let (best, at) = peak_scan(samples, from, upto);
            &&& best >= 0
            &&& forall|minute: int|
                from <= minute <= upto && (#[trigger] sample_at(samples, minute)) is Level
                    ==> sample_at(samples, minute)->0 <= best
            &&& best == 0 ==> at == 0
            &&& best > 0 ==> {
                &&& from <= at <= upto
                &&& sample_at(samples, at) == Elevation::Level(best as i64)
                &&& forall|minute: int|
                    from <= minute < at && (#[trigger] sample_at(samples, minute)) is Level
                        ==> sample_at(samples, minute)->0 < best
            }
        }),
    decreases upto - from + 1,
{
    if upto >= from {
        lemma_peak_is_first_maximum(samples, from, upto - 1);
    }
}

/// Every window of a scan is bounded by a located rise and a later located
/// fall, and is the window between the two.  A fall that no rise precedes
/// and a rise that no fall follows bound no window.
pub proof fn lemma_windows_are_bounded(
    samples: Seq<Elevation>,
    located: Seq<LocatedCrossing>,
    n: int,
)
    requires
        0 <= n <= located.len() <= usize::MAX,
    ensures
        scan_through(samples, located, n).state matches ScanState::InPass { rise, rise_index }
            ==> rise_index < n && located[rise_index as int].kind == CrossingKind::Rise
            && located[rise_index as int].root == Ok::<_, crate::error::RootFailure>(rise),
        forall|k: int|
            0 <= k < scan_through(samples, located, n).windows.len() ==> {
                let window = #[trigger] scan_through(samples, located, n).windows[k];
                &&& window.rise_index < window.fall_index < n
                &&& located[window.rise_index as int].kind == CrossingKind::Rise
                &&& located[window.rise_index as int].root == Ok::<_, crate::error::RootFailure>(
                    window.rise,
                )
                &&& located[window.fall_index as int].kind == CrossingKind::Fall
                &&& located[window.fall_index as int].root == Ok::<_, crate::error::RootFailure>(
                    window.fall,
                )
                &&& window == window_between(
                    samples,
                    window.rise,
                    window.rise_index,
                    window.fall,
                    window.fall_index,
                )
            },
    decreases n,
{
    if n > 0 {
        lemma_windows_are_bounded(samples, located, n - 1);
    }
}

/// While no root has failed, every root so far was found.
proof fn lemma_found_roots_keep_scanning(
    samples: Seq<Elevation>,
    located: Seq<LocatedCrossing>,
    n: int,
)
    requires
        0 <= n <= located.len(),
        forall|j: int| 0 <= j < n ==> (#[trigger] located[j]).root is Ok,
    ensures
        scan_through(samples, located, n).failure is None,
    decreases n,
{
    if n > 0 {
        lemma_found_roots_keep_scanning(samples, located, n - 1);
    }
}

/// A window, once found, stays: the windows after `n` crossings stand at the
/// head of those after `m >= n` crossings.
pub proof fn lemma_windows_stay(
    samples: Seq<Elevation>,
    located: Seq<LocatedCrossing>,
    n: int,
    m: int,
)
    requires
        0 <= n <= m,
    ensures
        scan_through(samples, located, n).windows.len() <= scan_through(
            samples,
            located,
            m,
        ).windows.len(),
        forall|k: int|
            0 <= k < scan_through(samples, located, n).windows.len() ==> scan_through(
                samples,
                located,
                m,
            ).windows[k] == #[trigger] scan_through(samples, located, n).windows[k],
    decreases m - n,
{
    if n < m {
        lemma_windows_stay(samples, located, n, m - 1);
    }
}

/// No pass is missed: a located rise that is followed at once by a located
/// fall bounds a window, whatever comes later.
pub proof fn lemma_rise_and_fall_bound_a_window(
    samples: Seq<Elevation>,
    located: Seq<LocatedCrossing>,
    j: int,
)
    requires
        located.len() <= usize::MAX,
        0 <= j,
        j + 1 < located.len(),
        forall|i: int| 0 <= i <= j + 1 ==> (#[trigger] located[i]).root is Ok,
        located[j].kind == CrossingKind::Rise,
        located[j + 1].kind == CrossingKind::Fall,
    ensures
        exists|k: int|
            0 <= k < scan(samples, located).windows.len() && #[trigger] scan(
                samples,
                located,
            ).windows[k] == window_between(
                samples,
                located[j].root->Ok_0,
                j as usize,
                located[j + 1].root->Ok_0,
                (j + 1) as usize,
            ),
{
    lemma_found_roots_keep_scanning(samples, located, j);
    lemma_found_roots_keep_scanning(samples, located, j + 1);
    let before = scan_through(samples, located, j);
    let held = scan_through(samples, located, j + 1);
    let closed = scan_through(samples, located, j + 2);
    assert(held.state == ScanState::InPass { rise: located[j].root->Ok_0, rise_index: j as usize });
    let k = held.windows.len() as int;
    assert(closed.windows == held.windows.push(
        window_between(
            samples,
            located[j].root->Ok_0,
            j as usize,
            located[j + 1].root->Ok_0,
            (j + 1) as usize,
        ),
    ));
    lemma_windows_stay(samples, located, j + 2, located.len() as int);
    assert(scan(samples, located).windows[k] == closed.windows[k]);
}

/// The record of a pass has its culmination strictly between rise and fall
/// exactly when the located rise, the refined culmination and the located
/// fall fall into three different seconds in that order.
pub proof fn lemma_pass_times_ordered(
    name: Seq<char>,
    start: TimePoint,
    window: PassWindow,
    measured: Measured,
)
    requires
        can_assemble(start, window, measured),
    ensures
        assembled(name, start, window, measured).ordered() <==> window.rise.second
            < measured.apogee_second < window.fall.second,
{
}

/// A scan that succeeds has located every crossing and measured every
/// window, and returns one pass for each window, in the order of time.
pub proof fn lemma_successful_scan<S, L, M>(
    res: Result<Vec<PassData>, PassesCalculationError>,
    name: Seq<char>,
    start: TimePoint,
    duration_minutes: i64,
    sample: S,
    locate: L,
    measure: M,
    samples: Seq<Elevation>,
    located: Seq<LocatedCrossing>,
    measured: Seq<MeasuredWindow>,
) where
    S: Fn(i64) -> Elevation,
    L: Fn(Crossing) -> Result<Located, RootFailure>,
    M: Fn(PassWindow) -> Option<Measured>,

    requires
        is_scan_result(
            res,
            name,
            start,
            duration_minutes,
            sample,
            locate,
            measure,
            samples,
            located,
            measured,
        ),
        res is Ok,
    ensures
        located.len() == crossings(samples).len(),
        forall|j: int| 0 <= j < located.len() ==> (#[trigger] located[j]).root is Ok,
        measured.len() == scan(samples, located).windows.len(),
        res.unwrap().len() == measured.len(),
        forall|k: int|
            0 <= k < measured.len() ==> (#[trigger] res.unwrap()[k])@ == assembled(
                name,
                start,
                scan(samples, located).windows[k],
                measured[k].measurement.unwrap(),
            ),
{
    let n = located.len() as int;
    if n > 0 && located[n - 1].root is Err {
        lemma_found_roots_keep_scanning(samples, located, n - 1);
        assert(scan_through(samples, located, n).failure is Some);
    }
    if measured.len() < scan(samples, located).windows.len() {
        assert(measured[measured.len() - 1].measurement is None);
    }
    let views = scan_outcome(name, start, scan(samples, located).failure, measured)->Ok_0;
    assert(pass_views(res.unwrap()@) == views);
    assert(pass_views(res.unwrap()@).len() == res.unwrap()@.len());
    assert(views.len() == measured.len());
    assert forall|k: int| 0 <= k < measured.len() implies (#[trigger] res.unwrap()[k])@
        == assembled(
        name,
        start,
        scan(samples, located).windows[k],
        measured[k].measurement.unwrap(),
    ) by {
        assert(pass_views(res.unwrap()@)[k] == res.unwrap()[k]@);
        assert(measured[k].window == scan(samples, located).windows[k]);
    }
}

/// Every pass that a scan returns has its culmination strictly between rise
/// and fall, provided that the solvers put each culmination in a second of
/// its own between those of the two crossings.
pub proof fn lemma_scanned_passes_ordered<S, L, M>(
    res: Result<Vec<PassData>, PassesCalculationError>,
    name: Seq<char>,
    start: TimePoint,
    duration_minutes: i64,
    sample: S,
    locate: L,
    measure: M,
    samples: Seq<Elevation>,
    located: Seq<LocatedCrossing>,
    measured: Seq<MeasuredWindow>,
) where
    S: Fn(i64) -> Elevation,
    L: Fn(Crossing) -> Result<Located, RootFailure>,
    M: Fn(PassWindow) -> Option<Measured>,

    requires
        is_scan_result(
            res,
            name,
            start,
            duration_minutes,
            sample,
            locate,
            measure,
            samples,
            located,
            measured,
        ),
        res is Ok,
        forall|k: int|
            0 <= k < measured.len() && (#[trigger] measured[k]).measurement is Some ==> {
                &&& can_assemble(start, measured[k].window, measured[k].measurement.unwrap())
                &&& measured[k].window.rise.second < measured[k].measurement.unwrap().apogee_second
                    < measured[k].window.fall.second
            },
    ensures
        forall|k: int| 0 <= k < res.unwrap().len() ==> (#[trigger] res.unwrap()[k])@.ordered(),
{
    lemma_successful_scan(
        res,
        name,
        start,
        duration_minutes,
        sample,
        locate,
        measure,
        samples,
        located,
        measured,
    );
    assert forall|k: int| 0 <= k < res.unwrap().len() implies (#[trigger] res.unwrap()[k])@.ordered() by {
        assert(measured[k].measurement is Some);
        assert(measured[k].window == scan(samples, located).windows[k]);
        lemma_pass_times_ordered(
            name,
            start,
            measured[k].window,
            measured[k].measurement.unwrap(),
        );
    }
}

/// The scan of a satellite that stays on one side of the horizon over the
/// whole window returns no pass.
pub proof fn lemma_scan_of_constant_side<S, L, M>(
    res: Result<Vec<PassData>, PassesCalculationError>,
    name: Seq<char>,
    start: TimePoint,
    duration_minutes: i64,
    sample: S,
    locate: L,
    measure: M,
    samples: Seq<Elevation>,
    located: Seq<LocatedCrossing>,
    measured: Seq<MeasuredWindow>,
) where
    S: Fn(i64) -> Elevation,
    L: Fn(Crossing) -> Result<Located, RootFailure>,
    M: Fn(PassWindow) -> Option<Measured>,

    requires
        is_scan_result(
            res,
            name,
            start,
            duration_minutes,
            sample,
            locate,
            measure,
            samples,
            located,
            measured,
        ),
        forall|i: int, j: int|
            0 <= i < samples.len() && 0 <= j < samples.len() ==> (#[trigger] samples[i]).above_horizon()
                == (#[trigger] samples[j]).above_horizon(),
    ensures
        res is Ok,
        res.unwrap().len() == 0,
{
    lemma_constant_side_gives_no_pass(samples, name, start);
    assert(located =~= Seq::empty());
    assert(measured =~= Seq::empty());
    assert(pass_views(res.unwrap()@).len() == 0);
}

/// The located crossings are those of the samples, and each root lies in the
/// minute between the two samples of its crossing.
pub open spec fn located_in_brackets(
    samples: Seq<Elevation>,
    located: Seq<LocatedCrossing>,
) -> bool {
    &&& located.len() == crossings(samples).len()
    &&& forall|j: int|
        0 <= j < located.len() ==> {
            let minute = crossings(samples)[j].minute;
            &&& (#[trigger] located[j]).kind == crossings(samples)[j].kind
            &&& located[j].root matches Ok(root) ==> 60 * (minute - 1) <= root.second <= 60
                * minute
        }
}

/// Where every root lies in the minute of its crossing, no pass falls before
/// it rises.
pub proof fn lemma_rise_not_after_fall(
    samples: Seq<Elevation>,
    located: Seq<LocatedCrossing>,
    k: int,
)
    requires
        samples.len() <= usize::MAX,
        located_in_brackets(samples, located),
        0 <= k < scan(samples, located).windows.len(),
    ensures
        scan(samples, located).windows[k].rise.second <= scan(samples, located).windows[k].fall.second,
{
    lemma_within_sound(samples, samples.len() as int);
    lemma_windows_are_bounded(samples, located, located.len() as int);
    let window = scan(samples, located).windows[k];
    let rise = crossings(samples)[window.rise_index as int];
    let fall = crossings(samples)[window.fall_index as int];
    assert(rise.minute < fall.minute);
    assert(located[window.rise_index as int].root == Ok::<_, crate::error::RootFailure>(
        window.rise,
    ));
    assert(located[window.fall_index as int].root == Ok::<_, crate::error::RootFailure>(
        window.fall,
    ));
}

} // verus!
