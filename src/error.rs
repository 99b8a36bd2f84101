//! The ways in which building or solving a trajectory can fail.
use vstd::prelude::*;

verus! {

/// Why a table, a simulation or a zero search was refused.
#[derive(Debug, Clone, Copy, PartialEq, Eq, Structural)]
pub enum BallisticError {
    /// A drag table with fewer than two points, or with keys that do not increase.
    InvalidTable,
    /// A physical input outside the domain that the model accepts.
    OutOfRange,
    /// The search would need a muzzle pitch above the ceiling.
    UnreachableZero,
    /// The pitch adjustment decayed to nothing before the height was within tolerance.
    ConvergenceStalled,
    /// A trial trajectory ended before it reached the zero distance.
    RangeExceedsTrajectory,
}

} // verus!
