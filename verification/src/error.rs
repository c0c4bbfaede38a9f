//! The ways in which building a circuit or its witness can fail.

use vstd::prelude::*;

verus! {

/// Why a circuit instance was given up.
#[derive(Clone, Copy, Debug, PartialEq, Eq, Structural)]
pub enum Error {
    /// A column or selector is used that the constraint system does not have,
    /// or an equality constraint touches a column that was not enabled for it.
    Configuration,
    /// An active gate does not vanish on the assigned values, or two cells
    /// bound by an equality constraint differ.
    WitnessInconsistency,
    /// The rows asked for do not let the computation end where it must.
    InsufficientRows,
    /// The number of rounds differs from the number of round constants.
    RoundConstantLengthMismatch,
}

} // verus!
