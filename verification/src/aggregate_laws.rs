//! What holds of refining and merging.

use vstd::prelude::*;
use crate::aggregate::{
    all_succeeded, is_merge_of, keeps, kept, kept_passes, merged, merged_through, sorted_by_rise,
};
use crate::elevation::Elevation;
use crate::error::{PassesCalculationError, RootFailure};
use crate::pass::{pass_views, PassData, PassView};
use crate::refine::{
    is_refinement, refined, refinement_outcome, Bracket, ThresholdBrackets, ThresholdCrossing,
};

verus! {

/// A crossing that was not found, or that lies within the first second from
/// the boundary, moves the boundary by nothing.
pub open spec fn keeps_boundary(crossing: ThresholdCrossing) -> bool {
    crossing == ThresholdCrossing::NotFound || crossing == ThresholdCrossing::Moved(0)
}

/// Refining a pass whose two threshold crossings lie within the first second
/// from its boundaries returns the pass as it is.
pub proof fn lemma_settled_pass_stays(
    pass: PassView,
    rise: ThresholdCrossing,
    fall: ThresholdCrossing,
)
    requires
        keeps_boundary(rise),
        keeps_boundary(fall),
    ensures
        refinement_outcome(pass, rise, fall) == Ok::<PassView, PassesCalculationError>(pass),
{
}

/// Refining twice: where the second refinement finds the threshold crossed
/// within the first second from the boundaries that the first one set, it
/// moves neither rise nor fall further.
pub proof fn lemma_refining_again_moves_nothing(
    pass: PassView,
    rise: ThresholdCrossing,
    fall: ThresholdCrossing,
    rise_again: ThresholdCrossing,
    fall_again: ThresholdCrossing,
)
    requires
        refinement_outcome(pass, rise, fall) is Ok,
        keeps_boundary(rise_again),
        keeps_boundary(fall_again),
    ensures
        refinement_outcome(refinement_outcome(pass, rise, fall)->Ok_0, rise_again, fall_again)
            == refinement_outcome(pass, rise, fall),
{
    lemma_settled_pass_stays(refinement_outcome(pass, rise, fall)->Ok_0, rise_again, fall_again);
}

/// A refinement changes nothing of a pass but its rise and its fall.
pub proof fn lemma_refinement_keeps_culmination(pass: PassView, rise: int, fall: int)
    ensures
        refined(pass, rise, fall).apogee_time == pass.apogee_time,
        refined(pass, rise, fall).apogee_elevation == pass.apogee_elevation,
        refined(pass, rise, fall).apogee_azimuth == pass.apogee_azimuth,
        refined(pass, rise, fall).rise_azimuth == pass.rise_azimuth,
        refined(pass, rise, fall).fall_azimuth == pass.fall_azimuth,
        refined(pass, rise, fall).satellite_name == pass.satellite_name,
{
}

/// With both minimum elevations at the horizon, every pass that culminates
/// at or above the horizon is kept.
pub proof fn lemma_horizon_keeps_every_pass(passes: Seq<PassView>)
    requires
        forall|k: int|
            0 <= k < passes.len() ==> (#[trigger] passes[k]).apogee_elevation.above_horizon(),
    ensures
        kept(passes, 0, 0) == passes,
    decreases passes.len(),
{
    let test = |pass: PassView| keeps(pass, 0, 0);
    if passes.len() > 0 {
        let front = passes.drop_last();
        assert forall|k: int| 0 <= k < front.len() implies (#[trigger] front[k]).apogee_elevation.above_horizon() by {
            assert(front[k] == passes[k]);
        }
        lemma_horizon_keeps_every_pass(front);
        assert(passes == front.push(passes.last()));
        front.lemma_filter_push(passes.last(), test);
    } else {
        assert(passes.filter(test).len() <= passes.len()) by {
            passes.lemma_filter_len(test);
        }
        assert(passes.filter(test) == passes);
    }
}

/// Filtering the records and filtering what they say come to the same.
pub proof fn lemma_kept_passes_say_the_same(
    passes: Seq<PassData>,
    min_elevation: i64,
    min_apogee: i64,
)
    ensures
        pass_views(kept_passes(passes, min_elevation, min_apogee)) == kept(
            pass_views(passes),
            min_elevation,
            min_apogee,
        ),
    decreases passes.len(),
{
    let whole = |pass: PassData| keeps(pass@, min_elevation, min_apogee);
    let test = |pass: PassView| keeps(pass, min_elevation, min_apogee);
    if passes.len() > 0 {
        let front = passes.drop_last();
        lemma_kept_passes_say_the_same(front, min_elevation, min_apogee);
        assert(passes == front.push(passes.last()));
        front.lemma_filter_push(passes.last(), whole);
        assert(pass_views(passes) == pass_views(front).push(passes.last()@));
        pass_views(front).lemma_filter_push(passes.last()@, test);
        assert(pass_views(front.filter(whole).push(passes.last())) == pass_views(
            front.filter(whole),
        ).push(passes.last()@));
    } else {
        passes.lemma_filter_len(whole);
        pass_views(passes).lemma_filter_len(test);
        assert(pass_views(passes.filter(whole)) == pass_views(passes).filter(test));
    }
}

/// The passes of a single satellite merge to themselves.
pub proof fn lemma_single_satellite_merges_to_itself(batch: Vec<PassData>)
    ensures
        merged(seq![Ok::<Vec<PassData>, PassesCalculationError>(batch)]) == pass_views(batch@),
{
    let batches = seq![Ok::<Vec<PassData>, PassesCalculationError>(batch)];
    assert(merged_through(batches, 0) == Seq::<PassView>::empty());
    assert(merged_through(batches, 1) == merged_through(batches, 0) + pass_views(batch@));
}

/// The round trip at the horizon.  Filter the passes of one satellite with
/// both minimum elevations at the horizon, refine each with crossings that
/// lie within the first second from its boundaries, and merge: the request
/// returns the passes that the scan returned, each with the times it had,
/// provided that each culminates at or above the horizon.
pub proof fn lemma_horizon_round_trip(
    res: Result<Vec<PassData>, PassesCalculationError>,
    scanned: Seq<PassView>,
    batch: Vec<PassData>,
    rise: Seq<ThresholdCrossing>,
    fall: Seq<ThresholdCrossing>,
)
    requires
        forall|k: int|
            0 <= k < scanned.len() ==> (#[trigger] scanned[k]).apogee_elevation.above_horizon(),
        rise.len() == scanned.len(),
        fall.len() == scanned.len(),
        forall|k: int| 0 <= k < scanned.len() ==> keeps_boundary(#[trigger] rise[k]),
        forall|k: int| 0 <= k < scanned.len() ==> keeps_boundary(#[trigger] fall[k]),
        batch.len() == kept(scanned, 0, 0).len(),
        forall|k: int|
            0 <= k < batch.len() ==> refinement_outcome(kept(scanned, 0, 0)[k], rise[k], fall[k])
                == Ok::<PassView, PassesCalculationError>((#[trigger] batch[k])@),
        is_merge_of(res, seq![Ok::<Vec<PassData>, PassesCalculationError>(batch)]),
    ensures
        res is Ok,
        sorted_by_rise(pass_views(res.unwrap()@)),
        pass_views(res.unwrap()@).to_multiset() == scanned.to_multiset(),
{
    lemma_horizon_keeps_every_pass(scanned);
    lemma_single_satellite_merges_to_itself(batch);
    assert forall|k: int| 0 <= k < batch.len() implies pass_views(batch@)[k] == scanned[k] by {
        lemma_settled_pass_stays(scanned[k], rise[k], fall[k]);
        assert(batch[k]@ == scanned[k]);
    }
    assert(pass_views(batch@) =~= scanned);
    let batches = seq![Ok::<Vec<PassData>, PassesCalculationError>(batch)];
    assert(all_succeeded(batches)) by {
        assert(batches[0] is Ok);
    }
}

/// Refining a pass again with the same minimum elevation: where the root
/// finder now finds the threshold crossed within the first second from the
/// boundaries, or the samples show no crossing, the pass comes back as it
/// went in.
pub proof fn lemma_refined_pass_is_settled<S, R, F>(
    res: Result<PassData, PassesCalculationError>,
    pass: PassView,
    threshold: i64,
    sample: S,
    closing: Elevation,
    locate_rise: R,
    locate_fall: F,
    samples: Seq<Elevation>,
    brackets: ThresholdBrackets,
    rise: ThresholdCrossing,
    fall: ThresholdCrossing,
) where
    S: Fn(i64) -> Elevation,
    R: Fn(Bracket) -> Result<i64, RootFailure>,
    F: Fn(Bracket) -> Result<i64, RootFailure>,

    requires
        is_refinement(
            res,
            pass,
            threshold,
            sample,
            closing,
            locate_rise,
            locate_fall,
            samples,
            brackets,
            rise,
            fall,
        ),
        keeps_boundary(rise),
        keeps_boundary(fall),
    ensures
        res is Ok,
        res.unwrap()@ == pass,
{
    lemma_settled_pass_stays(pass, rise, fall);
}

} // verus!
