//! The state operations: factories that normalize at birth, basis
//! conversion through the bound system's eigenbasis, time evolution by
//! per-eigencomponent phase rotation, and Born-rule probabilities.
//!
//! Every contract pins the produced amplitudes to an exact spec formula
//! over the named scalar primitives, so each operation computes one fixed
//! function of its inputs and of the system's spectrum.

use vstd::prelude::*;

use crate::amp::Amp;
use crate::basis::Basis;
use crate::braket::Braket;
use crate::context::Context;
use crate::error::QuantumError;
use crate::linalg::{
    adjoint_bra_of, adjoint_ket_of, all_zero, apply_adjoint_bra, apply_adjoint_ket,
    apply_matrix_bra, apply_matrix_ket, born_probs, evolve_bra, evolve_bra_of, evolve_ket,
    evolve_ket_of, is_zero_vec, mat_of, matrix_bra_of, matrix_ket_of, normalize, normalized_of,
    probs_of,
};
use crate::system::{pair_columns, pair_values, pair_view, pairs_view, System};

verus! {

/// A basis-tagged state vector: the façade type of the library.
pub type State = Basis;

/// Whether the state is bound to a system with the given system's
/// Hamiltonian whose spectrum has been computed and cached.
pub open spec fn bound_to(s: Basis, sys: System) -> bool {
    s.system_spec() matches Some(s2) && s2.ham_view() == sys.ham_view() && s2.eigen_view()
        == Some(sys.spectrum())
}

/// Whether the state's binding mirrors the optional system handed to a
/// factory: bound exactly when a system was given, with that system's
/// Hamiltonian and cache state.
pub open spec fn binds_like(s: Basis, given: Option<&System>) -> bool {
    match (s.system_spec(), given) {
        (Some(a), Some(b)) => a.ham_view() == b.ham_view() && a.eigen_view() == b.eigen_view(),
        (None, None) => true,
        _ => false,
    }
}

/// A real amplitude sequence: each entry becomes an amplitude with the
/// given real part and a positive-zero imaginary part.
pub open spec fn reals_of(d: Seq<u64>) -> Seq<Amp> {
    Seq::new(d.len(), |i: int| Amp { re: d[i], im: 0 })
}

/// The amplitudes a state holds after conversion to the solution basis.
pub open spec fn to_solution_amps(sys: System, is_bra: bool, v: Seq<Amp>) -> Seq<Amp> {
    if is_bra {
        matrix_bra_of(sys.eigvecs(), v)
    } else {
        adjoint_ket_of(sys.eigvecs(), v)
    }
}

/// The amplitudes a state holds after conversion to the problem basis.
pub open spec fn to_problem_amps(sys: System, is_bra: bool, v: Seq<Amp>) -> Seq<Amp> {
    if is_bra {
        adjoint_bra_of(sys.eigvecs(), v)
    } else {
        matrix_ket_of(sys.eigvecs(), v)
    }
}

/// The amplitudes of a solution-basis state evolved for time `t`: each
/// component is rotated by its eigenvalue's phase, a ket by
/// `exp(-i lam t)` and a bra by the conjugate.
pub open spec fn solution_evolved_amps(sys: System, t: u64, is_bra: bool, v: Seq<Amp>) -> Seq<
    Amp,
> {
    if is_bra {
        evolve_bra_of(sys.eigvals(), t, v)
    } else {
        evolve_ket_of(sys.eigvals(), t, v)
    }
}

/// The amplitudes of any bound state evolved for time `t`: a solution
/// state evolves diagonally; a problem state round-trips through the
/// eigenbasis to reuse the same diagonal operator.
pub open spec fn evolved_amps(
    sys: System,
    t: u64,
    is_bra: bool,
    is_solution: bool,
    v: Seq<Amp>,
) -> Seq<Amp> {
    if is_solution {
        solution_evolved_amps(sys, t, is_bra, v)
    } else {
        to_problem_amps(
            sys,
            is_bra,
            solution_evolved_amps(sys, t, is_bra, to_solution_amps(sys, is_bra, v)),
        )
    }
}

/// An owned snapshot of an optional system handle.
fn clone_binding(system: Option<&System>) -> (r: Option<System>)
    ensures
        system is Some <==> r is Some,
        match (r, system) {
            (Some(a), Some(b)) => a.ham_view() == b.ham_view() && a.eigen_view()
                == b.eigen_view(),
            _ => true,
        },
{
    match system {
        Some(s) => Some(s.clone()),
        None => None,
    }
}

/// The spectrum of a system, realized as plain vectors: the eigenvalues
/// and eigenvector columns in canonical order, together with a copy of the
/// system whose cache now holds them.
fn realize_spectrum(sys: &System) -> (r: (System, Vec<u64>, Vec<Vec<Amp>>))
    ensures
        r.0.ham_view() == sys.ham_view(),
        r.0.eigen_view() == Some(sys.spectrum()),
        r.1@ == sys.eigvals(),
        mat_of(r.2@) == sys.eigvecs(),
        r.1@.len() == sys.dim(),
        r.2@.len() == sys.dim(),
        forall|i: int| 0 <= i < r.2@.len() ==> (#[trigger] r.2@[i])@.len() == sys.dim(),
{
    let mut sys2 = sys.clone();
    let pairs = sys2.eigensystem();
    let vals = pair_values(&pairs);
    let cols = pair_columns(&pairs);
    proof {
        assert(pairs_view(pairs@) == sys.spectrum());
        assert forall|i: int| 0 <= i < pairs@.len() implies (#[trigger] pairs@[i]).value
            == sys.eigvals()[i] && pairs@[i].vector@ == sys.eigvecs()[i] by {
            assert(pairs_view(pairs@)[i] == pair_view(pairs@[i]));
        }
        assert(vals@ =~= sys.eigvals());
        assert forall|i: int| 0 <= i < cols@.len() implies #[trigger] mat_of(cols@)[i]
            == sys.eigvecs()[i] by {
            assert(mat_of(cols@)[i] == cols@[i]@);
        }
        assert(mat_of(cols@) =~= sys.eigvecs());
    }
    (sys2, vals, cols)
}

impl Basis {
    /// The state's amplitudes.
    pub open spec fn amps(self) -> Seq<Amp> {
        self.value_spec().amps()
    }

    /// The state's dimension.
    pub fn len(&self) -> (n: usize)
        ensures
            n == self.amps().len(),
    {
        self.get_braket().len()
    }

    /// The wrapped bra or ket.
    pub fn get_braket(&self) -> (r: &Braket)
        ensures
            *r == self.value_spec(),
    {
        self.get_value()
    }

    /// Whether the state is a bra (row) vector.
    pub fn is_bra(&self) -> (r: bool)
        ensures
            r == self.value_spec().is_bra_spec(),
    {
        match self.get_braket() {
            Braket::Bra(_) => true,
            Braket::Ket(_) => false,
        }
    }

    /// Whether the state is a ket (column) vector.
    pub fn is_ket(&self) -> (r: bool)
        ensures
            r == !self.value_spec().is_bra_spec(),
    {
        !self.is_bra()
    }

    /// A problem-basis ket, normalized to unit norm, optionally bound to a
    /// system.  A vector of exact zeros cannot be normalized and is
    /// rejected.
    pub fn problem_ket(vec: Vec<Amp>, system: Option<&System>) -> (r: Result<
        Basis,
        QuantumError,
    >)
        ensures
            r is Err <==> all_zero(vec@),
            r matches Err(e) ==> e == QuantumError::InvalidVector,
            r matches Ok(s) ==> {
                &&& !s.is_solution()
                &&& !s.value_spec().is_bra_spec()
                &&& s.amps() == normalized_of(vec@)
                &&& s.amps().len() == vec@.len()
                &&& binds_like(s, system)
            },
    {
        if is_zero_vec(&vec) {
            return Err(QuantumError::InvalidVector);
        }
        let normalized = normalize(&vec);
        let sys = clone_binding(system);
        Ok(Basis::Problem(Context { value: Braket::Ket(normalized), system: sys }))
    }

    /// A solution-basis ket, normalized to unit norm, optionally bound to a
    /// system.
    pub fn solution_ket(vec: Vec<Amp>, system: Option<&System>) -> (r: Result<
        Basis,
        QuantumError,
    >)
        ensures
            r is Err <==> all_zero(vec@),
            r matches Err(e) ==> e == QuantumError::InvalidVector,
            r matches Ok(s) ==> {
                &&& s.is_solution()
                &&& !s.value_spec().is_bra_spec()
                &&& s.amps() == normalized_of(vec@)
                &&& s.amps().len() == vec@.len()
                &&& binds_like(s, system)
            },
    {
        if is_zero_vec(&vec) {
            return Err(QuantumError::InvalidVector);
        }
        let normalized = normalize(&vec);
        let sys = clone_binding(system);
        Ok(Basis::Solution(Context { value: Braket::Ket(normalized), system: sys }))
    }

    /// A problem-basis bra, normalized to unit norm, optionally bound to a
    /// system.
    pub fn problem_bra(vec: Vec<Amp>, system: Option<&System>) -> (r: Result<
        Basis,
        QuantumError,
    >)
        ensures
            r is Err <==> all_zero(vec@),
            r matches Err(e) ==> e == QuantumError::InvalidVector,
            r matches Ok(s) ==> {
                &&& !s.is_solution()
                &&& s.value_spec().is_bra_spec()
                &&& s.amps() == normalized_of(vec@)
                &&& s.amps().len() == vec@.len()
                &&& binds_like(s, system)
            },
    {
        if is_zero_vec(&vec) {
            return Err(QuantumError::InvalidVector);
        }
        let normalized = normalize(&vec);
        let sys = clone_binding(system);
        Ok(Basis::Problem(Context { value: Braket::Bra(normalized), system: sys }))
    }

    /// A solution-basis bra, normalized to unit norm, optionally bound to a
    /// system.
    pub fn solution_bra(vec: Vec<Amp>, system: Option<&System>) -> (r: Result<
        Basis,
        QuantumError,
    >)
        ensures
            r is Err <==> all_zero(vec@),
            r matches Err(e) ==> e == QuantumError::InvalidVector,
            r matches Ok(s) ==> {
                &&& s.is_solution()
                &&& s.value_spec().is_bra_spec()
                &&& s.amps() == normalized_of(vec@)
                &&& s.amps().len() == vec@.len()
                &&& binds_like(s, system)
            },
    {
        if is_zero_vec(&vec) {
            return Err(QuantumError::InvalidVector);
        }
        let normalized = normalize(&vec);
        let sys = clone_binding(system);
        Ok(Basis::Solution(Context { value: Braket::Bra(normalized), system: sys }))
    }

    /// A problem-basis ket built from real amplitudes (each the bit pattern
    /// of a double; the imaginary parts are zero), normalized at birth.
    pub fn problem_ket_from_slice(data: &[u64], system: Option<&System>) -> (r: Result<
        Basis,
        QuantumError,
    >)
        ensures
            r is Err <==> all_zero(reals_of(data@)),
            r matches Err(e) ==> e == QuantumError::InvalidVector,
            r matches Ok(s) ==> {
                &&& !s.is_solution()
                &&& !s.value_spec().is_bra_spec()
                &&& s.amps() == normalized_of(reals_of(data@))
                &&& s.amps().len() == data@.len()
                &&& binds_like(s, system)
            },
    {
        let vec = reals_to_amps(data);
        Basis::problem_ket(vec, system)
    }

    /// A solution-basis ket built from real amplitudes (each the bit
    /// pattern of a double; the imaginary parts are zero), normalized at
    /// birth.
    pub fn solution_ket_from_slice(data: &[u64], system: Option<&System>) -> (r: Result<
        Basis,
        QuantumError,
    >)
        ensures
            r is Err <==> all_zero(reals_of(data@)),
            r matches Err(e) ==> e == QuantumError::InvalidVector,
            r matches Ok(s) ==> {
                &&& s.is_solution()
                &&& !s.value_spec().is_bra_spec()
                &&& s.amps() == normalized_of(reals_of(data@))
                &&& s.amps().len() == data@.len()
                &&& binds_like(s, system)
            },
    {
        let vec = reals_to_amps(data);
        Basis::solution_ket(vec, system)
    }

    /// The Born-rule weights of the state's components: each amplitude's
    /// squared magnitude.  No renormalization happens here; a state made by
    /// a factory or by `evolve` carries unit norm up to rounding.
    pub fn get_probabilities(&self) -> (r: Vec<u64>)
        ensures
            r@ == probs_of(self.amps()),
            r@.len() == self.amps().len(),
    {
        match self.get_braket() {
            Braket::Bra(v) => born_probs(v),
            Braket::Ket(v) => born_probs(v),
        }
    }

    /// The state expressed in the solution (eigen-) basis: an equal value
    /// if already there; otherwise the projection of each component onto
    /// the bound system's eigenvectors.  Fails if a conversion is needed
    /// and no system is bound, or the dimensions disagree.
    pub fn to_solution(&self) -> (r: Result<Basis, QuantumError>)
        ensures
            self.is_solution() ==> (r matches Ok(s) && s.same_state(*self)),
            !self.is_solution() && self.system_spec() is None ==> (r matches Err(e) && e
                == QuantumError::UnboundSystem),
            self.system_spec() matches Some(sys) ==> {
                &&& (!self.is_solution() && self.amps().len() != sys.dim()) ==> (r matches Err(e)
                    && e == (QuantumError::DimensionMismatch {
                    expected: sys.dim() as usize,
                    actual: self.amps().len() as usize,
                }))
                &&& (!self.is_solution() && self.amps().len() == sys.dim()) ==> (r matches Ok(s)
                    && {
                    &&& s.is_solution()
                    &&& s.value_spec().is_bra_spec() == self.value_spec().is_bra_spec()
                    &&& s.amps() == to_solution_amps(
                        sys,
                        self.value_spec().is_bra_spec(),
                        self.amps(),
                    )
                    &&& s.amps().len() == sys.dim()
                    &&& bound_to(s, sys)
                })
            },
    {
        match self {
            Basis::Solution(_) => Ok(self.clone()),
            Basis::Problem(c) => {
                match &c.system {
                    None => Err(QuantumError::UnboundSystem),
                    Some(sys) => {
                        let n = sys.dimension();
                        let len = c.value.len();
                        if len != n {
                            return Err(QuantumError::DimensionMismatch { expected: n, actual: len });
                        }
                        let (sys2, _vals, cols) = realize_spectrum(sys);
                        let value = match &c.value {
                            Braket::Ket(v) => Braket::Ket(apply_adjoint_ket(&cols, v)),
                            Braket::Bra(v) => Braket::Bra(apply_matrix_bra(&cols, v)),
                        };
                        Ok(Basis::Solution(Context { value, system: Some(sys2) }))
                    },
                }
            },
        }
    }

    /// The state expressed in the problem basis: an equal value if already
    /// there; otherwise the inverse of the solution-basis projection.
    /// Fails if a conversion is needed and no system is bound, or the
    /// dimensions disagree.
    pub fn to_problem(&self) -> (r: Result<Basis, QuantumError>)
        ensures
            !self.is_solution() ==> (r matches Ok(s) && s.same_state(*self)),
            self.is_solution() && self.system_spec() is None ==> (r matches Err(e) && e
                == QuantumError::UnboundSystem),
            self.system_spec() matches Some(sys) ==> {
                &&& (self.is_solution() && self.amps().len() != sys.dim()) ==> (r matches Err(e)
                    && e == (QuantumError::DimensionMismatch {
                    expected: sys.dim() as usize,
                    actual: self.amps().len() as usize,
                }))
                &&& (self.is_solution() && self.amps().len() == sys.dim()) ==> (r matches Ok(s)
                    && {
                    &&& !s.is_solution()
                    &&& s.value_spec().is_bra_spec() == self.value_spec().is_bra_spec()
                    &&& s.amps() == to_problem_amps(
                        sys,
                        self.value_spec().is_bra_spec(),
                        self.amps(),
                    )
                    &&& s.amps().len() == sys.dim()
                    &&& bound_to(s, sys)
                })
            },
    {
        match self {
            Basis::Problem(_) => Ok(self.clone()),
            Basis::Solution(c) => {
                match &c.system {
                    None => Err(QuantumError::UnboundSystem),
                    Some(sys) => {
                        let n = sys.dimension();
                        let len = c.value.len();
                        if len != n {
                            return Err(QuantumError::DimensionMismatch { expected: n, actual: len });
                        }
                        let (sys2, _vals, cols) = realize_spectrum(sys);
                        let value = match &c.value {
                            Braket::Ket(v) => Braket::Ket(apply_matrix_ket(&cols, v)),
                            Braket::Bra(v) => Braket::Bra(apply_adjoint_bra(&cols, v)),
                        };
                        Ok(Basis::Problem(Context { value, system: Some(sys2) }))
                    },
                }
            },
        }
    }

    /// The state evolved for time `t` (the bit pattern of a real double,
    /// possibly negative) under the bound system's Hamiltonian.  In the
    /// solution basis the evolution operator is diagonal: each component is
    /// rotated by its eigenvalue's phase.  A problem-basis state
    /// round-trips through the eigenbasis.  Fails when no system is bound,
    /// or the dimensions disagree.
    pub fn evolve(&self, t: u64) -> (r: Result<Basis, QuantumError>)
        ensures
            self.system_spec() is None ==> (r matches Err(e) && e == QuantumError::UnboundSystem),
            self.system_spec() matches Some(sys) ==> {
                &&& self.amps().len() != sys.dim() ==> (r matches Err(e) && e
                    == (QuantumError::DimensionMismatch {
                    expected: sys.dim() as usize,
                    actual: self.amps().len() as usize,
                }))
                &&& self.amps().len() == sys.dim() ==> (r matches Ok(s) && {
                    &&& s.is_solution() == self.is_solution()
                    &&& s.value_spec().is_bra_spec() == self.value_spec().is_bra_spec()
                    &&& s.amps() == evolved_amps(
                        sys,
                        t,
                        self.value_spec().is_bra_spec(),
                        self.is_solution(),
                        self.amps(),
                    )
                    &&& s.amps().len() == self.amps().len()
                    &&& bound_to(s, sys)
                })
            },
        decreases (if self.is_solution() {
            0int
        } else {
            1int
        }),
    {
        match self {
            Basis::Solution(c) => {
                match &c.system {
                    None => Err(QuantumError::UnboundSystem),
                    Some(sys) => {
                        let n = sys.dimension();
                        let len = c.value.len();
                        if len != n {
                            return Err(QuantumError::DimensionMismatch { expected: n, actual: len });
                        }
                        let (sys2, vals, _cols) = realize_spectrum(sys);
                        let value = match &c.value {
                            Braket::Ket(v) => Braket::Ket(evolve_ket(&vals, t, v)),
                            Braket::Bra(v) => Braket::Bra(evolve_bra(&vals, t, v)),
                        };
                        Ok(Basis::Solution(Context { value, system: Some(sys2) }))
                    },
                }
            },
            Basis::Problem(c) => {
                match &c.system {
                    None => Err(QuantumError::UnboundSystem),
                    Some(sys) => {
                        let n = sys.dimension();
                        let len = c.value.len();
                        if len != n {
                            return Err(QuantumError::DimensionMismatch { expected: n, actual: len });
                        }
                        let s1 = match self.to_solution() {
                            Ok(s) => s,
                            Err(e) => {
                                return Err(e);
                            },
                        };
                        let s2 = match s1.evolve(t) {
                            Ok(s) => s,
                            Err(e) => {
                                return Err(e);
                            },
                        };
                        let s3 = match s2.to_problem() {
                            Ok(s) => s,
                            Err(e) => {
                                return Err(e);
                            },
                        };
                        Ok(s3)
                    },
                }
            },
        }
    }
}

/// Real bit patterns turned into amplitudes with zero imaginary parts.
fn reals_to_amps(data: &[u64]) -> (r: Vec<Amp>)
    ensures
        r@ == reals_of(data@),
        r@.len() == data@.len(),
{
    let mut r: Vec<Amp> = Vec::new();
    let mut i: usize = 0;
    while i < data.len()
        invariant
            i <= data@.len(),
            r@.len() == i,
            forall|k: int| 0 <= k < i ==> r@[k] == (Amp { re: data@[k], im: 0 }),
        decreases data@.len() - i,
    {
        r.push(Amp { re: data[i], im: 0 });
        i = i + 1;
    }
    proof {
        assert(r@ =~= reals_of(data@));
    }
    r
}

} // verus!
