//! The ways in which a training run can be refused or can fail.

use vstd::prelude::*;

verus! {

/// Why a run was refused before it began, or why it was abandoned.
#[derive(Clone, Copy, Debug, PartialEq, Eq)]
pub enum NnError {
    /// Array dimensions do not fit together, or a layer has size zero.
    InvalidShape,
    /// The iteration count or the learning rate is not positive.
    InvalidConfiguration,
    /// A value that must be finite was an infinity or a not-a-number, or a
    /// predicted probability was not strictly between zero and one.
    NumericalInstability,
}

} // verus!
