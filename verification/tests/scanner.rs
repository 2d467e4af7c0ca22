use sat_passes::{
    assemble_passes, bound_window, coarse_peak, find_crossings, get_satellite_passes, plan_passes,
    scan_minutes, BracketEnd, Crossing, CrossingKind, Elevation, Located, LocatedCrossing,
    Measured, MeasuredWindow, PassData, PassWindow, PassesCalculationError, RootFailure, ScanPlan,
    TimePoint,
};
use std::cell::Cell;

fn levels(values: &[i64]) -> Vec<Elevation> {
    values.iter().map(|v| Elevation::Level(*v)).collect()
}

/// The elevation between two whole minutes, read off the straight line
/// through the two samples.
fn line_through(values: &[f64], minutes: f64) -> f64 {
    let low = minutes.floor().max(0.0).min((values.len() - 2) as f64) as usize;
    let part = minutes - low as f64;
    values[low] + part * (values[low + 1] - values[low])
}

/// A root finder for the tests: bisection on the straight lines.
fn bisect(values: &[f64], from: f64, to: f64) -> f64 {
    let (mut a, mut b) = (from, to);
    for _ in 0..200 {
        let mid = (a + b) / 2.0;
        if (line_through(values, a) < 0.0) == (line_through(values, mid) < 0.0) {
            a = mid;
        } else {
            b = mid;
        }
    }
    (a + b) / 2.0
}

fn locate(values: &[f64], crossing: Crossing) -> Result<Located, RootFailure> {
    let root = bisect(values, (crossing.minute - 1) as f64, crossing.minute as f64);
    Ok(Located { minute: root as i64, second: (root * 60.0) as i64 })
}

fn measure_at_peak(values: &[f64], window: PassWindow) -> Option<Measured> {
    let apogee = window.peak_minute as f64;
    Some(Measured {
        apogee_second: (apogee * 60.0) as i64,
        apogee_elevation: Elevation::Level((line_through(values, apogee) * 1000.0) as i64),
        rise_azimuth: 10,
        apogee_azimuth: 20,
        fall_azimuth: 30,
    })
}

fn scaled(values: &[f64], minute: i64) -> Elevation {
    Elevation::Level((values[minute as usize] * 1000.0) as i64)
}

fn run_scan(values: &[f64]) -> Result<Vec<PassData>, PassesCalculationError> {
    get_satellite_passes(
        "METEOR-M2",
        TimePoint::new(1_700_000_000, 250),
        values.len() as i64 - 1,
        |minute| scaled(values, minute),
        |crossing| locate(values, crossing),
        |window| measure_at_peak(values, window),
    )
}

#[test]
fn constant_elevation_gives_no_pass() {
    let above = run_scan(&[12.0, 12.0, 12.0, 12.0, 12.0, 12.0, 12.0]);
    assert_eq!(above, Ok(vec![]));
    let below = run_scan(&[-7.0, -7.0, -7.0, -7.0]);
    assert_eq!(below, Ok(vec![]));
    assert_eq!(find_crossings(&levels(&[5, 5, 5, 5])), vec![]);
}

#[test]
fn synthetic_samples_give_one_pass() {
    let start = TimePoint::new(1_700_000_000, 250);
    let passes = run_scan(&[-2.0, 1.0, 5.0, 9.0, 4.0, -3.0]).unwrap();
    assert_eq!(passes.len(), 1);
    let pass = &passes[0];
    let rise = pass.rise_time.seconds - start.seconds;
    let apogee = pass.apogee_time.seconds - start.seconds;
    let fall = pass.fall_time.seconds - start.seconds;
    assert!(0 < rise && rise < 60);
    assert!(240 < fall && fall < 300);
    assert!(rise < apogee && apogee < fall);
    assert!(pass.rise_time.is_before(&pass.apogee_time));
    assert!(pass.apogee_time.is_before(&pass.fall_time));
    assert_eq!(pass.apogee_elevation, Elevation::Level(9000));
    assert!(pass.apogee_elevation.is_at_least(9000));
    assert_eq!(rise, 39);
    assert_eq!(apogee, 180);
    assert_eq!(fall, 274);
    assert_eq!(pass.satellite_name, "METEOR-M2");
    assert_eq!(pass.rise_time.nanos, 250);
    assert_eq!((pass.rise_azimuth, pass.apogee_azimuth, pass.fall_azimuth), (10, 20, 30));
}

#[test]
fn leading_arc_gives_no_pass() {
    let passes = run_scan(&[6.0, 3.0, -1.0, -4.0, -4.0]).unwrap();
    assert_eq!(passes.len(), 0);
    let passes = run_scan(&[6.0, 3.0, -1.0, -4.0, 2.0, 5.0, -1.0]).unwrap();
    assert_eq!(passes.len(), 1);
    let rise = passes[0].rise_time.seconds - 1_700_000_000;
    assert!(180 < rise && rise < 240);
}

#[test]
fn trailing_arc_gives_no_pass() {
    let passes = run_scan(&[-6.0, -3.0, 1.0, 4.0, 4.0]).unwrap();
    assert_eq!(passes.len(), 0);
    let passes = run_scan(&[-2.0, 2.0, -2.0, -3.0, 1.0, 5.0]).unwrap();
    assert_eq!(passes.len(), 1);
    let fall = passes[0].fall_time.seconds - 1_700_000_000;
    assert!(60 < fall && fall < 120);
}

#[test]
fn crossings_are_found_where_the_sign_changes() {
    let samples = levels(&[-2, 1, 5, 9, 4, -3]);
    assert_eq!(
        find_crossings(&samples),
        vec![
            Crossing { minute: 1, kind: CrossingKind::Rise },
            Crossing { minute: 5, kind: CrossingKind::Fall },
        ]
    );
    assert_eq!(find_crossings(&vec![]), vec![]);
    assert_eq!(find_crossings(&levels(&[3])), vec![]);
}

#[test]
fn horizon_counts_as_above() {
    let samples = levels(&[-1, 0, 0, -1]);
    assert_eq!(
        find_crossings(&samples),
        vec![
            Crossing { minute: 1, kind: CrossingKind::Rise },
            Crossing { minute: 3, kind: CrossingKind::Fall },
        ]
    );
}

#[test]
fn undefined_sample_counts_as_below() {
    let samples = vec![
        Elevation::Level(4),
        Elevation::Undefined,
        Elevation::Level(4),
        Elevation::Level(-4),
        Elevation::Undefined,
    ];
    assert_eq!(
        find_crossings(&samples),
        vec![
            Crossing { minute: 1, kind: CrossingKind::Fall },
            Crossing { minute: 2, kind: CrossingKind::Rise },
            Crossing { minute: 3, kind: CrossingKind::Fall },
        ]
    );
    assert!(!Elevation::Undefined.is_above_horizon());
    assert!(!Elevation::Undefined.is_at_most(0));
    assert!(!Elevation::Undefined.is_at_least(i64::MIN));
}

#[test]
fn crossings_alternate_on_a_long_scan() {
    let samples = levels(&[-1, 2, 3, -1, -2, 4, -1, 1, 1, -9, 3]);
    let found = find_crossings(&samples);
    assert_eq!(found.len(), 7);
    for pair in found.windows(2) {
        assert_ne!(pair[0].kind, pair[1].kind);
        assert!(pair[0].minute < pair[1].minute);
    }
    assert_eq!(found[0].kind, CrossingKind::Rise);
}

#[test]
fn coarse_peak_is_the_first_highest_minute() {
    let samples = levels(&[-2, 1, 5, 9, 4, -3]);
    assert_eq!(coarse_peak(&samples, 0, 4), 3);
    assert_eq!(coarse_peak(&samples, 0, 2), 2);
    assert_eq!(coarse_peak(&samples, 4, 5), 4);
    let twice = levels(&[-1, 7, 7, 3, -1]);
    assert_eq!(coarse_peak(&twice, 0, 4), 1);
}

#[test]
fn coarse_peak_without_a_sample_above_the_horizon_is_zero() {
    let samples = levels(&[-2, -1, 0, 0, -3]);
    assert_eq!(coarse_peak(&samples, 1, 4), 0);
    assert_eq!(coarse_peak(&samples, 3, 2), 0);
    assert_eq!(coarse_peak(&vec![], 0, 10), 0);
    let undefined = vec![Elevation::Undefined, Elevation::Undefined];
    assert_eq!(coarse_peak(&undefined, 0, 1), 0);
}

#[test]
fn coarse_peak_passes_over_minutes_outside_the_scan() {
    let samples = levels(&[-2, 1, 5, 9, 4, -3]);
    assert_eq!(coarse_peak(&samples, -10, 100), 3);
    assert_eq!(coarse_peak(&samples, i64::MIN, i64::MAX), 3);
    assert_eq!(coarse_peak(&samples, 6, 9), 0);
    assert_eq!(coarse_peak(&samples, -9, -1), 0);
}

#[test]
fn window_brackets_the_peak() {
    let samples = levels(&[-2, 1, 5, 9, 4, -3]);
    let rise = Located { minute: 0, second: 40 };
    let fall = Located { minute: 4, second: 274 };
    let window = bound_window(&samples, rise, 0, fall, 1);
    assert_eq!(
        window,
        PassWindow {
            rise,
            rise_index: 0,
            fall,
            fall_index: 1,
            peak_minute: 3,
            lower: BracketEnd::Minute(2),
            upper: BracketEnd::Minute(4),
        }
    );
}

#[test]
fn window_of_a_short_pass_is_bracketed_by_its_crossings() {
    let samples = levels(&[-2, 3, -1]);
    let rise = Located { minute: 0, second: 24 };
    let fall = Located { minute: 1, second: 105 };
    let window = bound_window(&samples, rise, 0, fall, 1);
    assert_eq!(window.peak_minute, 1);
    assert_eq!(window.lower, BracketEnd::Rise);
    assert_eq!(window.upper, BracketEnd::Fall);
    let late = levels(&[-2, 3, 4, 9, -1]);
    let window = bound_window(
        &late,
        Located { minute: 0, second: 24 },
        0,
        Located { minute: 3, second: 234 },
        1,
    );
    assert_eq!(window.peak_minute, 3);
    assert_eq!(window.lower, BracketEnd::Minute(2));
    assert_eq!(window.upper, BracketEnd::Fall);
}

#[test]
fn plan_pairs_each_rise_with_the_next_fall() {
    let samples = levels(&[3, -1, 2, 6, -1, -1, 4, 8, 5, -2, 1]);
    let crossings = find_crossings(&samples);
    assert_eq!(crossings.len(), 6);
    let located: Vec<LocatedCrossing> = crossings
        .iter()
        .map(|c| LocatedCrossing {
            kind: c.kind,
            root: Ok(Located { minute: c.minute as i64 - 1, second: 60 * c.minute as i64 - 30 }),
        })
        .collect();
    let plan = plan_passes(&samples, &located);
    assert_eq!(plan.failure, None);
    assert_eq!(plan.windows.len(), 2);
    assert_eq!((plan.windows[0].rise_index, plan.windows[0].fall_index), (1, 2));
    assert_eq!((plan.windows[1].rise_index, plan.windows[1].fall_index), (3, 4));
    assert_eq!(plan.windows[0].rise.second, 90);
    assert_eq!(plan.windows[0].fall.second, 210);
    assert_eq!(plan.windows[0].peak_minute, 3);
    assert_eq!(plan.windows[1].peak_minute, 7);
    assert_eq!(plan.windows[1].lower, BracketEnd::Minute(6));
    assert_eq!(plan.windows[1].upper, BracketEnd::Minute(8));
}

#[test]
fn plan_stops_at_the_first_failed_root() {
    let samples = levels(&[-1, 2, -1, 2, -1]);
    let found = Ok(Located { minute: 0, second: 30 });
    let located = vec![
        LocatedCrossing { kind: CrossingKind::Rise, root: found },
        LocatedCrossing { kind: CrossingKind::Fall, root: Ok(Located { minute: 1, second: 90 }) },
        LocatedCrossing { kind: CrossingKind::Rise, root: Err(RootFailure::NoConvergency) },
        LocatedCrossing { kind: CrossingKind::Fall, root: Err(RootFailure::NoBracketing) },
    ];
    let plan = plan_passes(&samples, &located);
    assert_eq!(plan.failure, Some(RootFailure::NoConvergency));
    assert_eq!(plan.windows.len(), 1);
    let at_once = vec![LocatedCrossing {
        kind: CrossingKind::Rise,
        root: Err(RootFailure::ZeroDerivative),
    }];
    assert_eq!(
        plan_passes(&samples, &at_once),
        ScanPlan { windows: vec![], failure: Some(RootFailure::ZeroDerivative) }
    );
}

#[test]
fn later_rise_replaces_the_held_one() {
    let samples = levels(&[-1, 2, 3, 4, -1]);
    let located = vec![
        LocatedCrossing { kind: CrossingKind::Rise, root: Ok(Located { minute: 0, second: 30 }) },
        LocatedCrossing { kind: CrossingKind::Rise, root: Ok(Located { minute: 1, second: 80 }) },
        LocatedCrossing { kind: CrossingKind::Fall, root: Ok(Located { minute: 3, second: 200 }) },
        LocatedCrossing { kind: CrossingKind::Fall, root: Ok(Located { minute: 3, second: 230 }) },
    ];
    let plan = plan_passes(&samples, &located);
    assert_eq!(plan.windows.len(), 1);
    assert_eq!(plan.windows[0].rise.second, 80);
    assert_eq!(plan.windows[0].fall.second, 200);
    assert_eq!((plan.windows[0].rise_index, plan.windows[0].fall_index), (1, 2));
}

fn sample_window() -> PassWindow {
    PassWindow {
        rise: Located { minute: 0, second: 40 },
        rise_index: 0,
        fall: Located { minute: 4, second: 274 },
        fall_index: 1,
        peak_minute: 3,
        lower: BracketEnd::Minute(2),
        upper: BracketEnd::Minute(4),
    }
}

fn sample_measurement() -> Measured {
    Measured {
        apogee_second: 185,
        apogee_elevation: Elevation::Level(9100),
        rise_azimuth: -3,
        apogee_azimuth: 77,
        fall_azimuth: 140,
    }
}

#[test]
fn pass_record_carries_the_measurement() {
    let start = TimePoint::new(100, 999_999_999);
    let measured =
        vec![MeasuredWindow { window: sample_window(), measurement: Some(sample_measurement()) }];
    let passes = assemble_passes("NOAA 19", start, None, &measured).unwrap();
    assert_eq!(
        passes,
        vec![PassData {
            satellite_name: "NOAA 19".to_string(),
            rise_time: TimePoint { seconds: 140, nanos: 999_999_999 },
            rise_azimuth: -3,
            apogee_time: TimePoint { seconds: 285, nanos: 999_999_999 },
            apogee_elevation: Elevation::Level(9100),
            apogee_azimuth: 77,
            fall_time: TimePoint { seconds: 374, nanos: 999_999_999 },
            fall_azimuth: 140,
        }]
    );
    let single =
        sat_passes::assemble_pass("NOAA 19", start, &sample_window(), &sample_measurement());
    assert_eq!(single, passes[0]);
}

#[test]
fn failed_propagation_fails_the_scan() {
    let start = TimePoint::new(0, 0);
    let measured = vec![
        MeasuredWindow { window: sample_window(), measurement: Some(sample_measurement()) },
        MeasuredWindow { window: sample_window(), measurement: None },
    ];
    assert_eq!(
        assemble_passes("X", start, None, &measured),
        Err(PassesCalculationError::PropogationError)
    );
    assert_eq!(
        assemble_passes("X", start, Some(RootFailure::NoBracketing), &measured),
        Err(PassesCalculationError::PropogationError)
    );
}

#[test]
fn failed_root_fails_the_scan() {
    let start = TimePoint::new(0, 0);
    let measured =
        vec![MeasuredWindow { window: sample_window(), measurement: Some(sample_measurement()) }];
    assert_eq!(
        assemble_passes("X", start, Some(RootFailure::NoBracketing), &measured),
        Err(PassesCalculationError::RootCalculationError(RootFailure::NoBracketing))
    );
    assert_eq!(
        assemble_passes("X", start, Some(RootFailure::NoConvergency), &vec![]),
        Err(PassesCalculationError::RootCalculationError(RootFailure::NoConvergency))
    );
    assert_eq!(assemble_passes("X", start, None, &vec![]), Ok(vec![]));
}

#[test]
fn two_passes_come_in_the_order_of_time() {
    let passes =
        run_scan(&[-1.0, 2.0, 6.0, 2.0, -1.0, -5.0, -1.0, 3.0, 8.0, 12.0, 7.0, 1.0, -4.0])
            .unwrap();
    assert_eq!(passes.len(), 2);
    for pass in &passes {
        assert!(pass.rise_time.is_before(&pass.apogee_time));
        assert!(pass.apogee_time.is_before(&pass.fall_time));
    }
    assert!(passes[0].fall_time.is_before(&passes[1].rise_time));
    assert_eq!(passes[0].apogee_time.seconds - 1_700_000_000, 120);
    assert_eq!(passes[1].apogee_time.seconds - 1_700_000_000, 540);
    assert_eq!(passes[1].apogee_elevation, Elevation::Level(12000));
}

#[test]
fn window_is_sampled_at_every_whole_minute() {
    assert_eq!(scan_minutes(5), vec![0, 1, 2, 3, 4, 5]);
    assert_eq!(scan_minutes(0), vec![0]);
    assert_eq!(scan_minutes(-3), vec![0]);
    assert_eq!(scan_minutes(1440).len(), 1441);
}

#[test]
fn scan_of_a_window_without_length_samples_its_start() {
    let asked = Cell::new(0);
    let passes = get_satellite_passes(
        "X",
        TimePoint::new(0, 0),
        -5,
        |minute| {
            asked.set(asked.get() + 1);
            assert_eq!(minute, 0);
            Elevation::Level(3)
        },
        |_| Err(RootFailure::NoBracketing),
        |_| None,
    );
    assert_eq!(passes, Ok(vec![]));
    assert_eq!(asked.get(), 1);
}

#[test]
fn scan_asks_the_oracle_in_turn() {
    let values = [-2.0, 1.0, 5.0, 9.0, 4.0, -3.0, -1.0, 2.0, -2.0];
    let minutes = Cell::new(0);
    let brackets = Cell::new(0);
    let windows = Cell::new(0);
    let passes = get_satellite_passes(
        "X",
        TimePoint::new(0, 0),
        8,
        |minute| {
            assert_eq!(minute, minutes.get());
            minutes.set(minute + 1);
            scaled(&values, minute)
        },
        |crossing| {
            brackets.set(brackets.get() + 1);
            locate(&values, crossing)
        },
        |window| {
            windows.set(windows.get() + 1);
            measure_at_peak(&values, window)
        },
    )
    .unwrap();
    assert_eq!(passes.len(), 2);
    assert_eq!((minutes.get(), brackets.get(), windows.get()), (9, 4, 2));
    assert_eq!(passes[0].apogee_time.seconds, 180);
    assert_eq!(passes[1].apogee_time.seconds, 420);
}

#[test]
fn scan_stops_locating_at_the_first_failed_root() {
    let values = [-2.0, 1.0, -5.0, 9.0, -4.0, 3.0, -1.0];
    let brackets = Cell::new(0);
    let windows = Cell::new(0);
    let res = get_satellite_passes(
        "X",
        TimePoint::new(0, 0),
        6,
        |minute| scaled(&values, minute),
        |crossing| {
            brackets.set(brackets.get() + 1);
            if crossing.minute == 4 {
                Err(RootFailure::NoConvergency)
            } else {
                locate(&values, crossing)
            }
        },
        |window| {
            windows.set(windows.get() + 1);
            measure_at_peak(&values, window)
        },
    );
    assert_eq!(
        res,
        Err(PassesCalculationError::RootCalculationError(RootFailure::NoConvergency))
    );
    assert_eq!((brackets.get(), windows.get()), (4, 1));
}

#[test]
fn failed_bearing_comes_before_a_later_failed_root() {
    let values = [-2.0, 1.0, -5.0, 9.0, -4.0, 3.0, -1.0];
    let windows = Cell::new(0);
    let res = get_satellite_passes(
        "X",
        TimePoint::new(0, 0),
        6,
        |minute| scaled(&values, minute),
        |crossing| {
            if crossing.minute == 6 {
                Err(RootFailure::NoBracketing)
            } else {
                locate(&values, crossing)
            }
        },
        |window| {
            windows.set(windows.get() + 1);
            if window.rise_index == 0 {
                None
            } else {
                measure_at_peak(&values, window)
            }
        },
    );
    assert_eq!(res, Err(PassesCalculationError::PropogationError));
    assert_eq!(windows.get(), 1);
}
