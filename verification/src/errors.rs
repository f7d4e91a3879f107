//! The ways in which reading a root list can fail.
use vstd::prelude::*;

verus! {

/// Why a root list, or one entry of it, was rejected.
#[derive(Clone, Copy, Debug, PartialEq, Eq, Structural)]
pub enum DhatupathaError {
    /// A code has no `.` between its two parts, or one of the parts is not a number that fits.
    MalformedIdentifier,
    /// A line or row has fewer than two fields.
    InvalidResource,
    /// The fields were read, but no root can be made of them.
    BuildFailure,
    /// The data could not be read as records at all.
    ResourceAccessFailure,
}

} // verus!
