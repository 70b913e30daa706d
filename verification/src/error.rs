//! The recoverable failures of the state operations.

use vstd::prelude::*;

verus! {

/// Why an operation on a state could not be carried out.  Every failure is
/// per-call and recoverable; none corrupts a system's spectral cache.
#[derive(Clone, Copy, Debug, PartialEq, Eq, Structural)]
pub enum QuantumError {
    /// The state's vector length disagrees with the bound system's
    /// Hamiltonian dimension; carries the Hamiltonian's dimension and the
    /// state's length, in that order.
    DimensionMismatch { expected: usize, actual: usize },
    /// Evolution, or a basis conversion that actually has to change basis,
    /// was asked of a state with no attached system.
    UnboundSystem,
    /// A factory was given a vector of exact zeros, which cannot be
    /// normalized.
    InvalidVector,
}

} // verus!
