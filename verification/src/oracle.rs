//! What the scanner and the trajectories make of the propagator's failures.
//!
//! The propagator may give no position for an instant.  A sample of the
//! minute scan absorbs that: it becomes an undefined reading and the scan
//! goes on.  Where a position or a bearing is wanted for a given instant,
//! the failure is returned.

use vstd::prelude::*;
use crate::elevation::Elevation;
use crate::error::PassesCalculationError;
use crate::trajectory::{Bearing, GeodeticPosition};

verus! {

/// The reading of one sample: the level that the propagator led to, an
/// undefined reading where it failed.
pub fn get_elevation_safe(level: Option<i64>) -> (reading: Elevation)
    ensures
        reading == match level {
            Some(level) => Elevation::Level(level),
            None => Elevation::Undefined,
        },
{
    match level {
        Some(level) => Elevation::Level(level),
        None => Elevation::Undefined,
    }
}

/// The bearing of the satellite at an instant, or the failure to propagate.
pub fn get_observer_look(look: Option<Bearing>) -> (res: Result<Bearing, PassesCalculationError>)
    ensures
        res == match look {
            Some(look) => Ok::<Bearing, PassesCalculationError>(look),
            None => Err(PassesCalculationError::PropogationError),
        },
{
    match look {
        Some(look) => Ok(look),
        None => Err(PassesCalculationError::PropogationError),
    }
}

/// The position of the satellite at an instant, or the failure to propagate.
pub fn get_satellite_pos(position: Option<GeodeticPosition>) -> (res: Result<
    GeodeticPosition,
    PassesCalculationError,
>)
    ensures
        res == match position {
            Some(position) => Ok::<GeodeticPosition, PassesCalculationError>(position),
            None => Err(PassesCalculationError::PropogationError),
        },
{
    match position {
        Some(position) => Ok(position),
        None => Err(PassesCalculationError::PropogationError),
    }
}

} // verus!
