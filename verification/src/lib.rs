//! Satellite pass prediction: the discrete core.
//!
//! A pass is the time during which a satellite stands above the horizon of
//! an observer: it rises, culminates and falls.  The orbital propagator and
//! the numerical solvers work in real numbers and live with the caller.
//! This library holds everything that is decided from their answers, and its
//! contracts say what is decided.
//!
//! The caller hands its oracle in as functions, and the library asks it
//! in turn:
//!
//! * [`get_satellite_passes`] scans one satellite over a window: it samples
//!   the elevation minute by minute, has each change of sides located, pairs
//!   rises with falls, and has each pair measured.
//! * [`refine_to_threshold`] cuts one pass back to a minimum elevation, and
//!   [`filter_and_refine`] does so for the passes of one satellite that
//!   culminate high enough.
//! * [`get_filtered_passes`] merges the passes of many satellites in the
//!   order of their rise.
//! * [`get_trajectory`] and [`get_observer_trajectory`] sample a track
//!   second by second.
//!
//! Each of them is built from steps that decide on answers already given,
//! and that can be used on their own: [`find_crossings`], [`plan_passes`],
//! [`assemble_passes`], [`threshold_brackets`], [`refine_pass`],
//! [`retain_passes`] and [`merge_passes`].  What holds of every scan and of
//! every refinement is proved in [`scan_laws`] and [`aggregate_laws`].
//!
//! Angles enter the library as integers on a scale of the caller's choosing
//! (see [`Elevation`]), instants as whole seconds with the nanoseconds carried
//! along (see [`TimePoint`]).

pub mod aggregate;
pub mod aggregate_laws;
pub mod catalog;
pub mod elevation;
pub mod error;
pub mod oracle;
pub mod pass;
pub mod passes;
pub mod refine;
pub mod scan;
pub mod scan_laws;
pub mod settings;
pub mod time;
pub mod trajectory;

pub use aggregate::{
    filter_and_refine, get_filtered_passes, insert_by_rise, is_retained, merge_passes,
    retain_passes,
};
pub use catalog::find_satrec;
pub use elevation::Elevation;
pub use error::{PassesCalculationError, RootFailure};
pub use oracle::{get_elevation_safe, get_observer_look, get_satellite_pos};
pub use pass::PassData;
pub use passes::get_satellite_passes;
pub use refine::{
    refine_pass, refine_to_threshold, threshold_brackets, Bracket, ThresholdBrackets,
    ThresholdCrossing,
};
pub use scan::{
    assemble_pass, assemble_passes, bound_window, coarse_peak, find_crossings, plan_passes,
    scan_minutes, BracketEnd, Crossing, CrossingKind, Located, LocatedCrossing, Measured,
    MeasuredWindow, PassWindow, ScanPlan, ScanState,
};
pub use settings::{names_to_track, FetchingSettings};
pub use time::TimePoint;
pub use trajectory::{get_observer_trajectory, get_trajectory, Bearing, GeodeticPosition};
