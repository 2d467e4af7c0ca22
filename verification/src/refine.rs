//! The threshold refiner: cutting a pass back to a minimum elevation.
//!
//! A pass found at the horizon lasts from rise to fall.  Seen from a dish
//! that cannot point lower than some elevation it starts later and ends
//! earlier.  The pass is sampled again, at every whole minute after its rise;
//! where the samples pass the threshold the caller's root finder locates the
//! crossing of the threshold, and the pass is cut back to it.

use vstd::prelude::*;
use crate::elevation::Elevation;
use crate::error::{PassesCalculationError, RootFailure};
use crate::pass::{PassData, PassView};
use crate::passes::sampled_by;

verus! {

/// An interval for the root finder, in whole minutes after the rise of the
/// pass; `start` and `end` are the finder's two arguments in its order.
#[derive(Clone, Copy, Debug, PartialEq, Eq, Structural)]
pub struct Bracket {
    pub start: usize,
    pub end: usize,
}

/// Where the threshold is crossed on the way up and on the way down, as far
/// as the samples show it.
#[derive(Clone, Copy, Debug, PartialEq, Eq)]
pub struct ThresholdBrackets {
    pub rise: Option<Bracket>,
    pub fall: Option<Bracket>,
}

/// Going forward in time, the samples pass the threshold from at or below
/// it at `minute - 1` to at or above it at `minute`.
pub open spec fn climbs_at(samples: Seq<Elevation>, threshold: i64, minute: int) -> bool {
    &&& 0 < minute < samples.len()
    &&& samples[minute - 1].within(threshold)
    &&& samples[minute].reaches(threshold)
}

/// The reading that follows `minute` in time: the next sample, and after
/// the last whole minute but one the reading at the end of the pass.  A pass
/// seldom lasts a whole number of minutes, so that reading may lie up to two
/// minutes after `minute`.
pub open spec fn reading_after(samples: Seq<Elevation>, closing: Elevation, minute: int) -> Elevation {
    if minute == samples.len() - 2 {
        closing
    } else {
        samples[minute + 1]
    }
}

/// Going back in time, the readings pass the threshold at `minute`: from at
/// or below it after `minute` to at or above it at `minute`.
pub open spec fn drops_after(
    samples: Seq<Elevation>,
    closing: Elevation,
    threshold: i64,
    minute: int,
) -> bool {
    &&& 0 <= minute < samples.len() - 1
    &&& samples[minute].reaches(threshold)
    &&& reading_after(samples, closing, minute).within(threshold)
}

/// `found` is the bracket of the first climb through the threshold, or none
/// where the samples never climb through it.
pub open spec fn is_first_climb(
    samples: Seq<Elevation>,
    threshold: i64,
    found: Option<Bracket>,
) -> bool {
    match found {
        Some(bracket) => {
            &&& climbs_at(samples, threshold, bracket.end as int)
            &&& bracket.start == bracket.end - 1
            &&& forall|minute: int|
                0 < minute < bracket.end ==> !climbs_at(samples, threshold, minute)
        },
        None => forall|minute: int| !climbs_at(samples, threshold, minute),
    }
}

/// `found` is the bracket of the last drop below the threshold, two minutes
/// wide, or none where the readings never drop below it.
pub open spec fn is_last_drop(
    samples: Seq<Elevation>,
    closing: Elevation,
    threshold: i64,
    found: Option<Bracket>,
) -> bool {
    match found {
        Some(bracket) => {
            &&& drops_after(samples, closing, threshold, bracket.end as int)
            &&& bracket.start == bracket.end + 2
            &&& forall|minute: int|
                bracket.end < minute ==> !drops_after(samples, closing, threshold, minute)
        },
        None => forall|minute: int| !drops_after(samples, closing, threshold, minute),
    }
}

/// Scans a pass for the two crossings of a minimum elevation.
///
/// `samples` holds the elevation at the rise of the pass and at every whole
/// minute after it, as far as the pass lasts; `closing` is the elevation at
/// its fall.  The bracket of the fall reaches two minutes forward from the
/// sample that is high enough, so that it holds the end of the pass.
pub fn threshold_brackets(
    samples: &Vec<Elevation>,
    closing: Elevation,
    threshold: i64,
) -> (found: ThresholdBrackets)
    ensures
        is_first_climb(samples@, threshold, found.rise),
        is_last_drop(samples@, closing, threshold, found.fall),
{
    let mut rise: Option<Bracket> = None;
    let mut minute: usize = 1;
    while minute < samples.len()
        invariant_except_break
            rise is None,
        invariant
            1 <= minute,
            forall|earlier: int| 0 < earlier < minute ==> !climbs_at(samples@, threshold, earlier),
        ensures
            is_first_climb(samples@, threshold, rise),
        decreases samples.len() - minute,
    {
        if samples[minute - 1].is_at_most(threshold) && samples[minute].is_at_least(threshold) {
            rise = Some(Bracket { start: minute - 1, end: minute });
            break ;
        }
        minute = minute + 1;
    }
    let mut fall: Option<Bracket> = None;
    if samples.len() >= 2 {
        let mut low: bool = closing.is_at_most(threshold);
        let mut minute: usize = samples.len() - 1;
        while minute > 0
            invariant_except_break
                fall is None,
                minute > 0 ==> low == reading_after(samples@, closing, minute - 1).within(
                    threshold,
                ),
                forall|later: int|
                    minute <= later ==> !drops_after(samples@, closing, threshold, later),
            invariant
                samples.len() >= 2,
                minute <= samples.len() - 1,
            ensures
                is_last_drop(samples@, closing, threshold, fall),
            decreases minute,
        {
            minute = minute - 1;
            if low && samples[minute].is_at_least(threshold) {
                fall = Some(Bracket { start: minute + 2, end: minute });
                break ;
            }
            low = samples[minute].is_at_most(threshold);
        }
    }
    ThresholdBrackets { rise, fall }
}

/// What became of one crossing of the threshold.
#[derive(Clone, Copy, Debug, PartialEq, Eq, Structural)]
pub enum ThresholdCrossing {
    /// The samples showed no crossing; the boundary stays where it is.
    NotFound,
    /// The root finder located it: the whole seconds by which the boundary
    /// moves inward.
    Moved(i64),
    /// The root finder failed on the bracket.
    Failed(RootFailure),
}

impl ThresholdCrossing {
    /// The whole seconds by which the boundary moves.
    pub open spec fn seconds(self) -> int {
        match self {
            ThresholdCrossing::Moved(seconds) => seconds as int,
            _ => 0,
        }
    }
}

/// The pass with its rise `rise` seconds later and its fall `fall` seconds
/// earlier; all else as it was.
pub open spec fn refined(pass: PassView, rise: int, fall: int) -> PassView {
    PassView {
        rise_time: pass.rise_time.shifted(rise),
        fall_time: pass.fall_time.shifted(-fall),
        ..pass
    }
}

/// What refining a pass returns: the failure of the rise crossing, else that
/// of the fall crossing, else the pass cut back.
pub open spec fn refinement_outcome(
    pass: PassView,
    rise: ThresholdCrossing,
    fall: ThresholdCrossing,
) -> Result<PassView, PassesCalculationError> {
    if let ThresholdCrossing::Failed(failure) = rise {
        Err(PassesCalculationError::RootCalculationError(failure))
    } else if let ThresholdCrossing::Failed(failure) = fall {
        Err(PassesCalculationError::RootCalculationError(failure))
    } else {
        Ok(refined(pass, rise.seconds(), fall.seconds()))
    }
}

/// Cuts a pass back to the located crossings of the threshold.
pub fn refine_pass(pass: &PassData, rise: ThresholdCrossing, fall: ThresholdCrossing) -> (res:
    Result<PassData, PassesCalculationError>)
    requires
        pass.rise_time.can_shift(rise.seconds()),
        pass.fall_time.can_shift(-fall.seconds()),
    ensures
        match refinement_outcome(pass@, rise, fall) {
            Ok(view) => res is Ok && res.unwrap()@ == view,
            Err(error) => res == Err::<PassData, PassesCalculationError>(error),
        },
{
    let rise_seconds: i64 = match rise {
        ThresholdCrossing::Failed(failure) => {
            return Err(PassesCalculationError::RootCalculationError(failure));
        },
        ThresholdCrossing::Moved(seconds) => seconds,
        ThresholdCrossing::NotFound => 0,
    };
    let fall_seconds: i64 = match fall {
        ThresholdCrossing::Failed(failure) => {
            return Err(PassesCalculationError::RootCalculationError(failure));
        },
        ThresholdCrossing::Moved(seconds) => seconds,
        ThresholdCrossing::NotFound => 0,
    };
    let mut cut = pass.duplicate();
    cut.rise_time = pass.rise_time.plus_seconds(rise_seconds);
    cut.fall_time = pass.fall_time.minus_seconds(fall_seconds);
    Ok(cut)
}

/// `crossing` is what became of the crossing that the samples show in
/// `bracket`: none where they show none, else an answer of the root finder
/// for the bracket.
pub open spec fn crossing_by<L: Fn(Bracket) -> Result<i64, RootFailure>>(
    locate: L,
    bracket: Option<Bracket>,
    crossing: ThresholdCrossing,
) -> bool {
    match bracket {
        None => crossing == ThresholdCrossing::NotFound,
        Some(bracket) => match crossing {
            ThresholdCrossing::NotFound => false,
            ThresholdCrossing::Moved(seconds) => call_ensures(
                locate,
                (bracket,),
                Ok::<i64, RootFailure>(seconds),
            ),
            ThresholdCrossing::Failed(failure) => call_ensures(
                locate,
                (bracket,),
                Err::<i64, RootFailure>(failure),
            ),
        },
    }
}

/// `res` is what refining a pass returns where the oracle answered with
/// `samples` and the root finder with `rise` and `fall`.  After a failed
/// rise the fall is not sought.
pub open spec fn is_refinement<S, R, F>(
    res: Result<PassData, PassesCalculationError>,
    pass: PassView,
    threshold: i64,
    sample: S,
    closing: Elevation,
    locate_rise: R,
    locate_fall: F,
    samples: Seq<Elevation>,
    brackets: ThresholdBrackets,
    rise: ThresholdCrossing,
    fall: ThresholdCrossing,
) -> bool where
    S: Fn(i64) -> Elevation,
    R: Fn(Bracket) -> Result<i64, RootFailure>,
    F: Fn(Bracket) -> Result<i64, RootFailure>,
 {
    &&& sampled_by(sample, pass.whole_minutes() as i64, samples)
    &&& is_first_climb(samples, threshold, brackets.rise)
    &&& is_last_drop(samples, closing, threshold, brackets.fall)
    &&& crossing_by(locate_rise, brackets.rise, rise)
    &&& rise is Failed || crossing_by(locate_fall, brackets.fall, fall)
    &&& match refinement_outcome(pass, rise, fall) {
        Ok(view) => res is Ok && res.unwrap()@ == view,
        Err(error) => res == Err::<PassData, PassesCalculationError>(error),
    }
}

/// Cuts a pass back to a minimum elevation.
///
/// `sample` gives the elevation a whole number of minutes after the rise of
/// the pass, `closing` is the elevation at its fall.  `locate_rise` and
/// `locate_fall` locate the crossing of the threshold in a bracket and tell
/// by how many whole seconds the rise is to be moved forward and the fall
/// back.
pub fn refine_to_threshold<S, R, F>(
    pass: &PassData,
    threshold: i64,
    sample: S,
    closing: Elevation,
    locate_rise: R,
    locate_fall: F,
) -> (res: Result<PassData, PassesCalculationError>) where
    S: Fn(i64) -> Elevation,
    R: Fn(Bracket) -> Result<i64, RootFailure>,
    F: Fn(Bracket) -> Result<i64, RootFailure>,

    requires
        forall|minute: i64| call_requires(sample, (minute,)),
        forall|bracket: Bracket| call_requires(locate_rise, (bracket,)),
        forall|bracket: Bracket| call_requires(locate_fall, (bracket,)),
        forall|bracket: Bracket, seconds: i64|
            call_ensures(locate_rise, (bracket,), Ok::<i64, RootFailure>(seconds))
                ==> pass.rise_time.can_shift(seconds as int),
        forall|bracket: Bracket, seconds: i64|
            call_ensures(locate_fall, (bracket,), Ok::<i64, RootFailure>(seconds))
                ==> pass.fall_time.can_shift(-(seconds as int)),
    ensures
        exists|
            samples: Seq<Elevation>,
            brackets: ThresholdBrackets,
            rise: ThresholdCrossing,
            fall: ThresholdCrossing,
        |
            is_refinement(
                res,
                pass@,
                threshold,
                sample,
                closing,
                locate_rise,
                locate_fall,
                samples,
                brackets,
                rise,
                fall,
            ),
{
    let minutes = crate::scan::scan_minutes(pass.whole_minutes());
    let mut samples: Vec<Elevation> = Vec::new();
    let mut k: usize = 0;
    while k < minutes.len()
        invariant
            k <= minutes.len(),
            forall|i: int| 0 <= i < minutes.len() ==> minutes[i] == i,
            samples.len() == k,
            forall|minute: i64| call_requires(sample, (minute,)),
            forall|minute: int|
                0 <= minute < k ==> call_ensures(
                    sample,
                    (minute as i64,),
                    #[trigger] samples[minute],
                ),
        decreases minutes.len() - k,
    {
        samples.push(sample(minutes[k]));
        k = k + 1;
    }
    let brackets = threshold_brackets(&samples, closing, threshold);
    let rise = match brackets.rise {
        None => ThresholdCrossing::NotFound,
        Some(bracket) => match locate_rise(bracket) {
            Ok(seconds) => ThresholdCrossing::Moved(seconds),
            Err(failure) => ThresholdCrossing::Failed(failure),
        },
    };
    let fall = match rise {
        ThresholdCrossing::Failed(_) => ThresholdCrossing::NotFound,
        _ => match brackets.fall {
            None => ThresholdCrossing::NotFound,
            Some(bracket) => match locate_fall(bracket) {
                Ok(seconds) => ThresholdCrossing::Moved(seconds),
                Err(failure) => ThresholdCrossing::Failed(failure),
            },
        },
    };
    let res = refine_pass(pass, rise, fall);
    assert(is_refinement(
        res,
        pass@,
        threshold,
        sample,
        closing,
        locate_rise,
        locate_fall,
        samples@,
        brackets,
        rise,
        fall,
    ));
    res
}

} // verus!
