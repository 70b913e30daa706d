//! A payload paired with an optional handle on the system it lives in.

use vstd::prelude::*;

use crate::braket::Braket;
use crate::system::System;

verus! {

/// A state vector together with the system whose Hamiltonian gives its
/// basis tags meaning.  The system handle is an owned, read-only snapshot:
/// the system's Hamiltonian never changes, so sharing it by value is safe.
/// Equality of contexts compares the payload only, never the system (see
/// [`crate::basis::Basis`]).
#[derive(Debug)]
pub struct Context {
    pub value: Braket,
    pub system: Option<System>,
}

} // verus!
