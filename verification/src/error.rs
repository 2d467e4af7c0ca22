//! The ways in which a pass computation fails.

use vstd::prelude::*;

verus! {

/// Why the root finder gave no crossing time.
#[derive(Clone, Copy, Debug, PartialEq, Eq, Structural)]
pub enum RootFailure {
    /// The iteration cap was reached before the tolerance was met.
    NoConvergency,
    /// The function has the same sign at both ends of the bracket.
    NoBracketing,
    /// The search met a point where the derivative vanishes.
    ZeroDerivative,
}

/// The failure of a whole request.
#[derive(Clone, Copy, Debug, PartialEq, Eq, Structural)]
pub enum PassesCalculationError {
    /// The store of element sets could not be read.
    TleLoadingFailed,
    /// No element set carries the requested name.
    SatelliteNotFound,
    /// A horizon or threshold crossing could not be located.
    RootCalculationError(RootFailure),
    /// The propagator failed at an instant whose bearing was required.
    PropogationError,
}

impl PassesCalculationError {
    /// The text shown for the failure.
    pub open spec fn message_text(self) -> Seq<char> {
        match self {
            PassesCalculationError::TleLoadingFailed => "Failed to open tle at the specified path"@,
            PassesCalculationError::SatelliteNotFound =>
                "Failed to find the specified satellite at the specified tle path"@,
            PassesCalculationError::RootCalculationError(_) => "Failed to find function root"@,
            PassesCalculationError::PropogationError => "Failed to propogate satellite"@,
        }
    }

    pub fn message(&self) -> (text: String)
        ensures
            text@ == self.message_text(),
    {
        match self {
            PassesCalculationError::TleLoadingFailed =>
                "Failed to open tle at the specified path".to_owned(),
            PassesCalculationError::SatelliteNotFound =>
                "Failed to find the specified satellite at the specified tle path".to_owned(),
            PassesCalculationError::RootCalculationError(_) =>
                "Failed to find function root".to_owned(),
            PassesCalculationError::PropogationError => "Failed to propogate satellite".to_owned(),
        }
    }
}

} // verus!
