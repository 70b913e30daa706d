use quantum_tools::amp::Amp;
use quantum_tools::braket::Braket;
use quantum_tools::error::QuantumError;
use quantum_tools::state::State;
use quantum_tools::system::System;

fn amp(re: f64, im: f64) -> Amp {
    Amp { re: re.to_bits(), im: im.to_bits() }
}

fn system2() -> System {
    let ham = vec![
        vec![amp(0.0, 0.0), amp(0.0, 1.0)],
        vec![amp(0.0, -1.0), amp(0.0, 0.0)],
    ];
    System::new(ham)
}

#[test]
fn zero_vectors_are_rejected_by_every_factory() {
    let zeros = || vec![amp(0.0, 0.0), amp(0.0, -0.0)];
    assert_eq!(State::problem_ket(zeros(), None).unwrap_err(), QuantumError::InvalidVector);
    assert_eq!(State::solution_ket(zeros(), None).unwrap_err(), QuantumError::InvalidVector);
    assert_eq!(State::problem_bra(zeros(), None).unwrap_err(), QuantumError::InvalidVector);
    assert_eq!(State::solution_bra(zeros(), None).unwrap_err(), QuantumError::InvalidVector);
    let zero_reals = [0.0f64.to_bits(), (-0.0f64).to_bits()];
    assert_eq!(
        State::problem_ket_from_slice(&zero_reals, None).unwrap_err(),
        QuantumError::InvalidVector
    );
    assert_eq!(
        State::solution_ket_from_slice(&zero_reals, None).unwrap_err(),
        QuantumError::InvalidVector
    );
}

#[test]
fn equality_ignores_the_bound_system() {
    let system = system2();
    let unbound = State::solution_ket(vec![amp(0.6, 0.0), amp(0.8, 0.0)], None).unwrap();
    let bound = unbound.clone().with_system(&system);
    assert!(unbound == bound);
    let detached = bound.clone().without_system();
    assert!(detached == bound);
    assert!(detached.get_system().is_none());
    assert!(bound.get_system().is_some());
}

#[test]
fn equality_is_tag_sensitive() {
    let ket = State::solution_ket(vec![amp(0.6, 0.0), amp(0.8, 0.0)], None).unwrap();
    let bra = State::solution_bra(vec![amp(0.6, 0.0), amp(0.8, 0.0)], None).unwrap();
    let problem_ket = State::problem_ket(vec![amp(0.6, 0.0), amp(0.8, 0.0)], None).unwrap();
    let other = State::solution_ket(vec![amp(0.8, 0.0), amp(0.6, 0.0)], None).unwrap();
    assert!(ket != bra);
    assert!(ket != problem_ket);
    assert!(ket != other);
    assert!(ket == ket.clone());
}

#[test]
fn braket_equality_is_exact_and_tag_sensitive() {
    let u = vec![amp(0.6, 0.0), amp(0.8, 0.0)];
    let ket = Braket::Ket(u.clone());
    let bra = Braket::Bra(u.clone());
    assert!(ket == Braket::Ket(u.clone()));
    assert!(ket != bra);
    assert!(ket != Braket::Ket(vec![amp(0.6, 0.0)]));
    assert_eq!(ket.len(), 2);
    assert_eq!(bra.len(), 2);
}

#[test]
fn accessors_report_shape_and_tag() {
    let system = system2();
    let ket = State::problem_ket(vec![amp(1.0, 0.0), amp(2.0, 0.0)], Some(&system)).unwrap();
    assert_eq!(ket.len(), 2);
    assert!(ket.is_ket());
    assert!(!ket.is_bra());
    assert!(matches!(ket.get_braket(), Braket::Ket(_)));
    assert!(matches!(ket, State::Problem(_)));
    let bra = State::solution_bra(vec![amp(1.0, 0.0)], None).unwrap();
    assert!(bra.is_bra());
    assert!(!bra.is_ket());
    assert_eq!(bra.len(), 1);
    assert_eq!(system.dimension(), 2);
}

#[test]
fn to_solution_is_identity_on_solution_states() {
    let psi = State::solution_ket(vec![amp(0.1, 0.3), amp(0.5, -0.2)], None).unwrap();
    let converted = psi.to_solution().unwrap();
    assert!(converted == psi);
}

#[test]
fn to_problem_is_identity_on_problem_states() {
    let psi = State::problem_bra(vec![amp(0.1, 0.3), amp(0.5, -0.2)], None).unwrap();
    let converted = psi.to_problem().unwrap();
    assert!(converted == psi);
}

#[test]
fn conversions_need_a_bound_system() {
    let psi = State::problem_ket(vec![amp(1.0, 0.0), amp(0.0, 0.0)], None).unwrap();
    assert_eq!(psi.to_solution().unwrap_err(), QuantumError::UnboundSystem);
    let phi = State::solution_ket(vec![amp(1.0, 0.0), amp(0.0, 0.0)], None).unwrap();
    assert_eq!(phi.to_problem().unwrap_err(), QuantumError::UnboundSystem);
}

#[test]
fn conversions_check_the_dimension() {
    let system = system2();
    let short = State::problem_ket(vec![amp(1.0, 0.0)], Some(&system)).unwrap();
    assert_eq!(
        short.to_solution().unwrap_err(),
        QuantumError::DimensionMismatch { expected: 2, actual: 1 }
    );
    let long = State::solution_bra(
        vec![amp(1.0, 0.0), amp(0.0, 0.0), amp(0.0, 0.0)],
        Some(&system),
    )
    .unwrap();
    assert_eq!(
        long.to_problem().unwrap_err(),
        QuantumError::DimensionMismatch { expected: 2, actual: 3 }
    );
}

#[test]
fn rebinding_allows_a_detached_state_to_evolve() {
    let system = system2();
    let detached = State::solution_ket(vec![amp(0.6, 0.0), amp(0.8, 0.0)], Some(&system))
        .unwrap()
        .without_system();
    assert_eq!(
        detached.evolve(0.5f64.to_bits()).unwrap_err(),
        QuantumError::UnboundSystem
    );
    let rebound = detached.with_system(&system);
    assert!(rebound.evolve(0.5f64.to_bits()).is_ok());
}

#[test]
fn from_slice_factories_tag_their_basis() {
    let p = State::problem_ket_from_slice(&[1.0f64.to_bits()], None).unwrap();
    let s = State::solution_ket_from_slice(&[1.0f64.to_bits()], None).unwrap();
    assert!(matches!(p, State::Problem(_)));
    assert!(matches!(s, State::Solution(_)));
    assert!(p != s);
}
