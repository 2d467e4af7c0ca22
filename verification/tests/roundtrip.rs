use sat_passes::{
    filter_and_refine, get_filtered_passes, get_satellite_passes, refine_to_threshold, Bracket,
    BracketEnd, Crossing, Elevation, Located, Measured, PassData, PassWindow,
    PassesCalculationError, RootFailure, TimePoint,
};

/// The elevation of a made-up satellite in sixtieths of a degree, second by
/// second: straight lines through one value for every whole minute.
fn height(second: i64) -> i64 {
    let degrees: [i64; 10] = [-2, 1, 5, 9, 4, -3, -6, -6, -6, -6];
    let minute = (second / 60).clamp(0, 8) as usize;
    60 * degrees[minute] + (second - 60 * minute as i64) * (degrees[minute + 1] - degrees[minute])
}

const START: i64 = 1_700_000_000;

/// The first second of the bracket at which the satellite is on the other
/// side of `threshold` than at the start of the bracket, or the start where
/// it stands on the threshold.
fn first_change(from: i64, to: i64, threshold: i64, origin: i64) -> Result<i64, RootFailure> {
    let side = |second: i64| height(origin + second) >= threshold;
    if height(origin + from) == threshold {
        return Ok(from);
    }
    (from..=to).find(|second| side(*second) != side(from)).ok_or(RootFailure::NoBracketing)
}

fn locate_crossing(crossing: Crossing) -> Result<Located, RootFailure> {
    let to = 60 * crossing.minute as i64;
    let second = first_change(to - 60, to, 0, 0)?;
    Ok(Located { minute: second / 60, second })
}

fn measure_window(window: PassWindow) -> Option<Measured> {
    let end = |end: BracketEnd| match end {
        BracketEnd::Rise => window.rise.second,
        BracketEnd::Fall => window.fall.second,
        BracketEnd::Minute(minute) => 60 * minute,
    };
    let apogee_second =
        (end(window.lower)..=end(window.upper)).rev().max_by_key(|second| height(*second))?;
    Some(Measured {
        apogee_second,
        apogee_elevation: Elevation::Level(height(apogee_second)),
        rise_azimuth: 100,
        apogee_azimuth: 200,
        fall_azimuth: 300,
    })
}

fn scan_made_up() -> Result<Vec<PassData>, PassesCalculationError> {
    get_satellite_passes(
        "MADE UP",
        TimePoint::new(START, 0),
        8,
        |minute| Elevation::Level(height(60 * minute)),
        locate_crossing,
        measure_window,
    )
}

fn refine_made_up(pass: PassData, threshold: i64) -> Result<PassData, PassesCalculationError> {
    let origin = pass.rise_time.seconds - START;
    let duration = pass.fall_time.seconds - pass.rise_time.seconds;
    refine_to_threshold(
        &pass,
        threshold,
        |minute| Elevation::Level(height(origin + 60 * minute)),
        Elevation::Level(height(origin + duration)),
        |bracket: Bracket| {
            first_change(60 * bracket.start as i64, 60 * bracket.end as i64, threshold, origin)
        },
        |bracket: Bracket| {
            let fall =
                first_change(60 * bracket.end as i64, 60 * bracket.start as i64, threshold, origin)?;
            Ok(duration - fall)
        },
    )
}

#[test]
fn made_up_satellite_passes_once() {
    let passes = scan_made_up().unwrap();
    assert_eq!(passes.len(), 1);
    assert_eq!(passes[0].rise_time, TimePoint::new(START + 40, 0));
    assert_eq!(passes[0].apogee_time, TimePoint::new(START + 180, 0));
    assert_eq!(passes[0].fall_time, TimePoint::new(START + 275, 0));
    assert_eq!(passes[0].apogee_elevation, Elevation::Level(540));
    assert_eq!(passes[0].whole_minutes(), 3);
}

#[test]
fn filtered_passes_at_the_horizon_are_the_scanned_passes() {
    let scanned = scan_made_up().unwrap();
    let filtered = get_filtered_passes(1, |_| {
        let passes = scan_made_up()?;
        filter_and_refine(&passes, 0, 0, |pass| refine_made_up(pass, 0))
    })
    .unwrap();
    assert_eq!(filtered, scanned);
}

#[test]
fn pass_is_cut_back_to_four_degrees() {
    let scanned = scan_made_up().unwrap();
    let cut = refine_made_up(scanned[0].duplicate(), 240).unwrap();
    assert_eq!(cut.rise_time, TimePoint::new(START + 105, 0));
    assert_eq!(cut.fall_time, TimePoint::new(START + 241, 0));
    assert_eq!(cut.apogee_time, scanned[0].apogee_time);
    assert!(cut.rise_time.is_before(&cut.apogee_time));
    assert!(cut.apogee_time.is_before(&cut.fall_time));
}

#[test]
fn refining_a_refined_pass_moves_nothing() {
    let scanned = scan_made_up().unwrap();
    let once = refine_made_up(scanned[0].duplicate(), 240).unwrap();
    let twice = refine_made_up(once.duplicate(), 240).unwrap();
    assert_eq!(twice, once);
    let thrice = refine_made_up(twice, 240).unwrap();
    assert_eq!(thrice, once);
}

#[test]
fn pass_that_stays_too_low_is_dropped() {
    let filtered = get_filtered_passes(1, |_| {
        let passes = scan_made_up()?;
        filter_and_refine(&passes, 240, 541, |pass| refine_made_up(pass, 240))
    });
    assert_eq!(filtered, Ok(vec![]));
    let kept = get_filtered_passes(1, |_| {
        let passes = scan_made_up()?;
        filter_and_refine(&passes, 240, 540, |pass| refine_made_up(pass, 240))
    })
    .unwrap();
    assert_eq!(kept.len(), 1);
    assert_eq!(kept[0].rise_time, TimePoint::new(START + 105, 0));
}
