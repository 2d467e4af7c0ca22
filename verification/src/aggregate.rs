//! The aggregator: filtering the passes of one satellite and merging those of
//! many into one list in the order of their rise.

use vstd::prelude::*;
use vstd::seq_lib::to_multiset_insert;
use crate::error::PassesCalculationError;
use crate::pass::{pass_views, PassData, PassView};

verus! {

/// The culmination of the pass reaches both minimum elevations.
pub open spec fn keeps(pass: PassView, min_elevation: i64, min_apogee: i64) -> bool {
    pass.apogee_elevation.reaches(min_apogee) && pass.apogee_elevation.reaches(min_elevation)
}

/// The passes that are kept, in their order.
pub open spec fn kept(passes: Seq<PassView>, min_elevation: i64, min_apogee: i64) -> Seq<
    PassView,
> {
    passes.filter(|pass: PassView| keeps(pass, min_elevation, min_apogee))
}

/// The pass records that are kept, in their order.
pub open spec fn kept_passes(passes: Seq<PassData>, min_elevation: i64, min_apogee: i64) -> Seq<
    PassData,
> {
    passes.filter(|pass: PassData| keeps(pass@, min_elevation, min_apogee))
}

/// Whether a pass culminates high enough to be kept.
pub fn is_retained(pass: &PassData, min_elevation: i64, min_apogee: i64) -> (r: bool)
    ensures
        r == keeps(pass@, min_elevation, min_apogee),
{
    pass.apogee_elevation.is_at_least(min_apogee) && pass.apogee_elevation.is_at_least(
        min_elevation,
    )
}

/// Drops the passes whose culmination is below either minimum.
pub fn retain_passes(passes: &Vec<PassData>, min_elevation: i64, min_apogee: i64) -> (retained:
    Vec<PassData>)
    ensures
        retained@ == kept_passes(passes@, min_elevation, min_apogee),
        pass_views(retained@) == kept(pass_views(passes@), min_elevation, min_apogee),
{
    let mut retained: Vec<PassData> = Vec::new();
    let mut k: usize = 0;
    while k < passes.len()
        invariant
            k <= passes.len(),
            retained@ == kept_passes(passes@.take(k as int), min_elevation, min_apogee),
            pass_views(retained@) == kept(
                pass_views(passes@).take(k as int),
                min_elevation,
                min_apogee,
            ),
        decreases passes.len() - k,
    {
        proof {
            let views = pass_views(passes@);
            let test = |pass: PassView| keeps(pass, min_elevation, min_apogee);
            assert(views.take(k + 1) == views.take(k as int).push(views[k as int]));
            views.take(k as int).lemma_filter_push(views[k as int], test);
            let whole = |pass: PassData| keeps(pass@, min_elevation, min_apogee);
            assert(passes@.take(k + 1) == passes@.take(k as int).push(passes@[k as int]));
            passes@.take(k as int).lemma_filter_push(passes@[k as int], whole);
        }
        if is_retained(&passes[k], min_elevation, min_apogee) {
            let ghost before = retained@;
            retained.push(passes[k].duplicate());
            assert(pass_views(retained@) == pass_views(before).push(passes[k as int]@));
        }
        k = k + 1;
    }
    assert(pass_views(passes@).take(passes.len() as int) == pass_views(passes@));
    assert(passes@.take(passes.len() as int) == passes@);
    retained
}

/// No pass rises before one that stands earlier in the list.
pub open spec fn sorted_by_rise(passes: Seq<PassView>) -> bool {
    forall|i: int, j: int|
        0 <= i < j < passes.len() ==> !(#[trigger] passes[j]).rise_time.before(
            (#[trigger] passes[i]).rise_time,
        )
}

/// `place` is where a pass that rises at `rise` goes into the ordered list:
/// behind every pass that does not rise later, before the first that does.
pub open spec fn is_place_by_rise(sorted: Seq<PassView>, rise: crate::time::TimePoint, place: int) -> bool {
    &&& 0 <= place <= sorted.len()
    &&& forall|i: int| 0 <= i < place ==> !rise.before((#[trigger] sorted[i]).rise_time)
    &&& place < sorted.len() ==> rise.before(sorted[place].rise_time)
}

/// Puts a pass into a list ordered by rise, behind every pass that does not
/// rise later, and tells where it went.
pub fn insert_by_rise(sorted: &mut Vec<PassData>, pass: PassData) -> (place: usize)
    requires
        sorted_by_rise(pass_views(old(sorted)@)),
    ensures
        is_place_by_rise(pass_views(old(sorted)@), pass.rise_time, place as int),
        pass_views(final(sorted)@) == pass_views(old(sorted)@).insert(place as int, pass@),
        sorted_by_rise(pass_views(final(sorted)@)),
        pass_views(final(sorted)@).to_multiset() == pass_views(old(sorted)@).to_multiset().insert(
            pass@,
        ),
{
    let mut place: usize = 0;
    while place < sorted.len() && !pass.rise_time.is_before(&sorted[place].rise_time)
        invariant
            place <= sorted.len(),
            forall|i: int|
                0 <= i < place ==> !pass.rise_time.before((#[trigger] sorted[i]).rise_time),
        decreases sorted.len() - place,
    {
        place = place + 1;
    }
    let ghost before = pass_views(sorted@);
    let ghost view = pass@;
    proof {
        assert forall|i: int| 0 <= i < place implies !view.rise_time.before(
            (#[trigger] before[i]).rise_time,
        ) by {
            assert(before[i] == sorted[i]@);
        }
        if place < sorted.len() {
            assert(before[place as int] == sorted[place as int]@);
            assert(view.rise_time.before(before[place as int].rise_time));
        }
    }
    sorted.insert(place, pass);
    proof {
        assert(pass_views(sorted@) == before.insert(place as int, view));
        to_multiset_insert(before, place as int, view);
        let after = pass_views(sorted@);
        assert forall|i: int, j: int| 0 <= i < j < after.len() implies !(#[trigger] after[j]).rise_time.before(
            (#[trigger] after[i]).rise_time,
        ) by {
            if j < place {
                assert(after[i] == before[i] && after[j] == before[j]);
            } else if j == place {
                assert(after[i] == before[i]);
            } else if i < place {
                assert(after[i] == before[i] && after[j] == before[j - 1]);
            } else if i == place {
                assert(after[j] == before[j - 1]);
                let first = before[place as int];
                if j - 1 > place {
                    assert(!before[j - 1].rise_time.before(first.rise_time));
                }
            } else {
                assert(after[i] == before[i - 1] && after[j] == before[j - 1]);
            }
        }
    }
    place
}

/// The passes of the first `n` satellites, in the order in which they stand.
/// A satellite whose scan failed has none.
pub open spec fn merged_through(
    batches: Seq<Result<Vec<PassData>, PassesCalculationError>>,
    n: int,
) -> Seq<PassView>
    decreases n,
{
    if n <= 0 {
        Seq::empty()
    } else {
        merged_through(batches, n - 1) + match batches[n - 1] {
            Ok(passes) => pass_views(passes@),
            Err(_) => Seq::empty(),
        }
    }
}

/// The passes of all satellites.
pub open spec fn merged(batches: Seq<Result<Vec<PassData>, PassesCalculationError>>) -> Seq<
    PassView,
> {
    merged_through(batches, batches.len() as int)
}

/// The satellite at `index` is the first whose computation failed.
pub open spec fn fails_first_at(
    batches: Seq<Result<Vec<PassData>, PassesCalculationError>>,
    index: int,
) -> bool {
    &&& 0 <= index < batches.len()
    &&& batches[index] is Err
    &&& forall|earlier: int| 0 <= earlier < index ==> (#[trigger] batches[earlier]) is Ok
}

/// Every satellite's computation succeeded.
pub open spec fn all_succeeded(
    batches: Seq<Result<Vec<PassData>, PassesCalculationError>>,
) -> bool {
    forall|index: int| 0 <= index < batches.len() ==> (#[trigger] batches[index]) is Ok
}

/// Merges the passes of many satellites into one list ordered by rise.
///
/// `batches` holds, satellite by satellite, the passes that were kept and
/// refined, or the failure that ended that satellite's computation.  The
/// first failure fails the whole request.
pub fn merge_passes(batches: &Vec<Result<Vec<PassData>, PassesCalculationError>>) -> (res:
    Result<Vec<PassData>, PassesCalculationError>)
    ensures
        all_succeeded(batches@) ==> res is Ok && sorted_by_rise(pass_views(res.unwrap()@))
            && pass_views(res.unwrap()@).to_multiset() == merged(batches@).to_multiset(),
        forall|index: int|
            fails_first_at(batches@, index) ==> res == Err::<
                Vec<PassData>,
                PassesCalculationError,
            >(batches[index]->Err_0),
{
    let mut sorted: Vec<PassData> = Vec::new();
    let mut b: usize = 0;
    assert(pass_views(sorted@) =~= merged_through(batches@, 0));
    while b < batches.len()
        invariant
            b <= batches.len(),
            forall|earlier: int| 0 <= earlier < b ==> (#[trigger] batches[earlier]) is Ok,
            sorted_by_rise(pass_views(sorted@)),
            pass_views(sorted@).to_multiset() == merged_through(batches@, b as int).to_multiset(),
        decreases batches.len() - b,
    {
        match &batches[b] {
            Err(error) => {
                assert(fails_first_at(batches@, b as int));
                assert forall|index: int| fails_first_at(batches@, index) implies index == b by {
                    if index < b {
                        assert(batches@[index] is Ok);
                    } else if index > b {
                        assert(batches@[b as int] is Ok);
                    }
                }
                return Err(*error);
            },
            Ok(passes) => {
                let ghost base = merged_through(batches@, b as int);
                let mut k: usize = 0;
                while k < passes.len()
                    invariant
                        k <= passes.len(),
                        sorted_by_rise(pass_views(sorted@)),
                        pass_views(sorted@).to_multiset() == (base + pass_views(passes@).take(
                            k as int,
                        )).to_multiset(),
                    decreases passes.len() - k,
                {
                    let ghost views = pass_views(passes@);
                    insert_by_rise(&mut sorted, passes[k].duplicate());
                    proof {
                        assert(base + views.take(k + 1) == (base + views.take(k as int)).push(
                            views[k as int],
                        ));
                        vstd::seq_lib::to_multiset_build(
                            base + views.take(k as int),
                            views[k as int],
                        );
                    }
                    k = k + 1;
                }
                assert(pass_views(passes@).take(passes.len() as int) == pass_views(passes@));
            },
        }
        b = b + 1;
    }
    assert(all_succeeded(batches@));
    Ok(sorted)
}

/// `answers` holds what the refiner made of the kept passes, in their
/// order, up to the first pass on which it failed.
pub open spec fn refined_in_turn<R: Fn(PassData) -> Result<PassData, PassesCalculationError>>(
    refine: R,
    passes: Seq<PassData>,
    answers: Seq<Result<PassData, PassesCalculationError>>,
) -> bool {
    &&& answers.len() <= passes.len()
    &&& forall|k: int|
        0 <= k < answers.len() ==> call_ensures(refine, (passes[k],), #[trigger] answers[k])
    &&& forall|k: int| 0 <= k < answers.len() - 1 ==> (#[trigger] answers[k]) is Ok
    &&& answers.len() < passes.len() ==> answers.len() > 0 && answers.last() is Err
}

/// What the passes of one satellite come to: the failure of the refiner
/// where it failed, the refined passes in their order where it did not.
pub open spec fn is_batch(
    res: Result<Vec<PassData>, PassesCalculationError>,
    answers: Seq<Result<PassData, PassesCalculationError>>,
) -> bool {
    if answers.len() > 0 && answers.last() is Err {
        res == Err::<Vec<PassData>, PassesCalculationError>(answers.last()->Err_0)
    } else {
        res is Ok && res.unwrap()@ == Seq::new(answers.len(), |k: int| answers[k]->Ok_0)
    }
}

/// Filters the passes of one satellite and refines the ones that are kept.
///
/// A pass is kept where its culmination reaches both minimum elevations.
/// The kept passes are refined in their order; the first failure ends the
/// work and is returned.
pub fn filter_and_refine<R>(
    passes: &Vec<PassData>,
    min_elevation: i64,
    min_apogee: i64,
    refine: R,
) -> (res: Result<Vec<PassData>, PassesCalculationError>) where
    R: Fn(PassData) -> Result<PassData, PassesCalculationError>,

    requires
        forall|pass: PassData| call_requires(refine, (pass,)),
    ensures
        exists|answers: Seq<Result<PassData, PassesCalculationError>>|
            refined_in_turn(refine, kept_passes(passes@, min_elevation, min_apogee), answers)
                && #[trigger] is_batch(res, answers),
{
    let retained = retain_passes(passes, min_elevation, min_apogee);
    let mut refined: Vec<PassData> = Vec::new();
    let ghost mut answers: Seq<Result<PassData, PassesCalculationError>> = Seq::empty();
    let mut k: usize = 0;
    while k < retained.len()
        invariant
            k <= retained.len(),
            retained@ == kept_passes(passes@, min_elevation, min_apogee),
            refined.len() == k,
            answers.len() == k,
            forall|pass: PassData| call_requires(refine, (pass,)),
            forall|i: int|
                0 <= i < k ==> call_ensures(refine, (retained[i],), #[trigger] answers[i]),
            forall|i: int|
                0 <= i < k ==> (#[trigger] answers[i]) == Ok::<PassData, PassesCalculationError>(
                    refined[i],
                ),
        decreases retained.len() - k,
    {
        let answer = refine(retained[k].duplicate());
        proof {
            answers = answers.push(answer);
        }
        match answer {
            Err(error) => {
                let res = Err(error);
                assert(refined_in_turn(refine, retained@, answers));
                assert(is_batch(res, answers));
                return res;
            },
            Ok(pass) => {
                refined.push(pass);
            },
        }
        k = k + 1;
    }
    assert(refined@ =~= Seq::new(answers.len(), |k: int| answers[k]->Ok_0));
    assert(refined_in_turn(refine, retained@, answers));
    let res = Ok(refined);
    assert(is_batch(res, answers));
    res
}

/// `batches` holds what each satellite came to, in their order, up to the
/// first satellite whose computation failed.
pub open spec fn batched_in_turn<B: Fn(usize) -> Result<Vec<PassData>, PassesCalculationError>>(
    batch_of: B,
    satellites: usize,
    batches: Seq<Result<Vec<PassData>, PassesCalculationError>>,
) -> bool {
    &&& batches.len() <= satellites
    &&& forall|index: int|
        0 <= index < batches.len() ==> call_ensures(
            batch_of,
            (index as usize,),
            #[trigger] batches[index],
        )
    &&& forall|index: int| 0 <= index < batches.len() - 1 ==> (#[trigger] batches[index]) is Ok
    &&& batches.len() < satellites ==> batches.len() > 0 && batches.last() is Err
}

/// `res` is what merging `batches` returns: the failure of the first
/// satellite that failed, else the passes of all in the order of their rise.
pub open spec fn is_merge_of(
    res: Result<Vec<PassData>, PassesCalculationError>,
    batches: Seq<Result<Vec<PassData>, PassesCalculationError>>,
) -> bool {
    &&& all_succeeded(batches) ==> res is Ok && sorted_by_rise(pass_views(res.unwrap()@))
        && pass_views(res.unwrap()@).to_multiset() == merged(batches).to_multiset()
    &&& forall|index: int|
        fails_first_at(batches, index) ==> res == Err::<Vec<PassData>, PassesCalculationError>(
            batches[index]->Err_0,
        )
}

/// The passes of many satellites in the order of their rise.
///
/// `batch_of` gives the passes of one satellite, filtered and refined.  The
/// satellites are taken in their order; the first failure ends the work and
/// fails the request.
pub fn get_filtered_passes<B>(satellites: usize, batch_of: B) -> (res: Result<
    Vec<PassData>,
    PassesCalculationError,
>) where B: Fn(usize) -> Result<Vec<PassData>, PassesCalculationError>
    requires
        forall|index: usize| call_requires(batch_of, (index,)),
    ensures
        exists|batches: Seq<Result<Vec<PassData>, PassesCalculationError>>|
            batched_in_turn(batch_of, satellites, batches) && #[trigger] is_merge_of(res, batches),
{
    let mut batches: Vec<Result<Vec<PassData>, PassesCalculationError>> = Vec::new();
    let mut index: usize = 0;
    while index < satellites
        invariant_except_break
            batches.len() == index,
            forall|i: int| 0 <= i < batches.len() ==> (#[trigger] batches[i]) is Ok,
        invariant
            index <= satellites,
            batches.len() <= satellites,
            forall|index: usize| call_requires(batch_of, (index,)),
            forall|i: int|
                0 <= i < batches.len() ==> call_ensures(
                    batch_of,
                    (i as usize,),
                    #[trigger] batches[i],
                ),
        ensures
            batched_in_turn(batch_of, satellites, batches@),
        decreases satellites - index,
    {
        let batch = batch_of(index);
        let failed = batch.is_err();
        batches.push(batch);
        if failed {
            break ;
        }
        index = index + 1;
    }
    let res = merge_passes(&batches);
    assert(is_merge_of(res, batches@));
    res
}

} // verus!
