//! The basis tag: a context labelled `Problem` (the basis the Hamiltonian
//! is written in) or `Solution` (the Hamiltonian's own eigenbasis).

use vstd::prelude::*;

use crate::braket::Braket;
use crate::context::Context;
use crate::system::System;

verus! {

/// Whether two optional system handles carry the same Hamiltonian and the
/// same cache state.
pub open spec fn sys_match(a: Option<System>, b: Option<System>) -> bool {
    match (a, b) {
        (Some(x), Some(y)) => x.ham_view() == y.ham_view() && x.eigen_view() == y.eigen_view(),
        (None, None) => true,
        _ => false,
    }
}

/// A context tagged by the coordinate system its numeric coefficients are
/// expressed in.
#[derive(Debug)]
pub enum Basis {
    Problem(Context),
    Solution(Context),
}

impl Basis {
    /// The wrapped context.
    pub open spec fn ctx(self) -> Context {
        match self {
            Basis::Problem(c) => c,
            Basis::Solution(c) => c,
        }
    }

    /// Whether the tag is `Solution`.
    pub open spec fn is_solution(self) -> bool {
        self is Solution
    }

    /// The wrapped payload.
    pub open spec fn value_spec(self) -> Braket {
        self.ctx().value
    }

    /// The bound system, if any.
    pub open spec fn system_spec(self) -> Option<System> {
        self.ctx().system
    }

    /// Tag-and-payload equality: what `==` compares.  The bound system is
    /// deliberately ignored.
    pub open spec fn same_value(self, other: Basis) -> bool {
        self.is_solution() == other.is_solution() && self.value_spec().same_value(
            other.value_spec(),
        )
    }

    /// Full structural sameness: tag, payload, and the bound system's
    /// Hamiltonian and cache state.
    pub open spec fn same_state(self, other: Basis) -> bool {
        self.same_value(other) && sys_match(self.system_spec(), other.system_spec())
    }

    /// The same value, rebound to the given system.
    pub fn with_system(self, system: &System) -> (r: Basis)
        ensures
            r.same_value(self),
            r.is_solution() == self.is_solution(),
            r.value_spec() == self.value_spec(),
            r.system_spec() matches Some(s) && s.ham_view() == system.ham_view()
                && s.eigen_view() == system.eigen_view(),
    {
        match self {
            Basis::Problem(c) => Basis::Problem(
                Context { value: c.value, system: Some(system.clone()) },
            ),
            Basis::Solution(c) => Basis::Solution(
                Context { value: c.value, system: Some(system.clone()) },
            ),
        }
    }

    /// The same value, with the system reference cleared.
    pub fn without_system(self) -> (r: Basis)
        ensures
            r.same_value(self),
            r.is_solution() == self.is_solution(),
            r.value_spec() == self.value_spec(),
            r.system_spec() is None,
    {
        match self {
            Basis::Problem(c) => Basis::Problem(Context { value: c.value, system: None }),
            Basis::Solution(c) => Basis::Solution(Context { value: c.value, system: None }),
        }
    }

    /// The wrapped payload.
    pub fn get_value(&self) -> (r: &Braket)
        ensures
            *r == self.value_spec(),
    {
        match self {
            Basis::Problem(c) => &c.value,
            Basis::Solution(c) => &c.value,
        }
    }

    /// The bound system, if any.
    pub fn get_system(&self) -> (r: &Option<System>)
        ensures
            *r == self.system_spec(),
    {
        match self {
            Basis::Problem(c) => &c.system,
            Basis::Solution(c) => &c.system,
        }
    }
}

impl Clone for Basis {
    /// A copy with the same tag, the same amplitudes, and a system handle
    /// with the same Hamiltonian and cache state.
    fn clone(&self) -> (r: Self)
        ensures
            r.same_state(*self),
            r.is_solution() == self.is_solution(),
    {
        let value = self.get_value().clone();
        let system = match self.get_system() {
            Some(s) => Some(s.clone()),
            None => None,
        };
        match self {
            Basis::Problem(_) => Basis::Problem(Context { value, system }),
            Basis::Solution(_) => Basis::Solution(Context { value, system }),
        }
    }
}

impl PartialEq for Basis {
    /// Equality compares the tag and the payload; the bound system is not
    /// compared, so equal values bound to different systems are equal.
    fn eq(&self, other: &Self) -> (r: bool) {
        match (self, other) {
            (Basis::Problem(a), Basis::Problem(b)) => a.value == b.value,
            (Basis::Solution(a), Basis::Solution(b)) => a.value == b.value,
            _ => false,
        }
    }
}

impl vstd::std_specs::cmp::PartialEqSpecImpl for Basis {
    open spec fn obeys_eq_spec() -> bool {
        true
    }

    open spec fn eq_spec(&self, other: &Basis) -> bool {
        self.same_value(*other)
    }
}

/// Equality of basis-tagged values ignores the bound system: two values
/// with the same tag and the same amplitudes compare equal under `==`,
/// whatever system either of them is bound to, or none.
pub proof fn lemma_eq_ignores_system(a: Basis, b: Basis)
    requires
        a.is_solution() == b.is_solution(),
        a.value_spec().same_value(b.value_spec()),
    ensures
        vstd::std_specs::cmp::PartialEqSpec::eq_spec(&a, &b),
{
}

} // verus!
