//! A small quantum-mechanics toolkit: normalized state vectors tagged by the
//! basis their coefficients are expressed in, a spectral cache for a fixed
//! Hermitian Hamiltonian, and time evolution by per-eigencomponent phase
//! rotation.
//!
//! All numeric scalars are carried as IEEE-754 bit patterns (`u64`), so the
//! verified logic can speak about them exactly; the floating-point
//! primitives themselves sit behind a handful of trusted wrappers in
//! [`fp`].

pub mod amp;
pub mod basis;
pub mod braket;
pub mod context;
pub mod error;
pub mod fp;
pub mod linalg;
pub mod state;
pub mod system;

pub use amp::Amp;
pub use basis::Basis;
pub use braket::Braket;
pub use context::Context;
pub use error::QuantumError;
pub use state::State;
pub use system::System;
