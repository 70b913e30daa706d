use quantum_tools::amp::Amp;
use quantum_tools::error::QuantumError;
use quantum_tools::state::State;
use quantum_tools::system::System;

fn amp(re: f64, im: f64) -> Amp {
    Amp { re: re.to_bits(), im: im.to_bits() }
}

fn re_of(a: Amp) -> f64 {
    f64::from_bits(a.re)
}

fn im_of(a: Amp) -> f64 {
    f64::from_bits(a.im)
}

fn close(a: f64, b: f64, tol: f64) -> bool {
    (a - b).abs() <= tol
}

/// The 2x2 Hermitian matrix [[0, i], [-i, 0]].
fn system2() -> System {
    let ham = vec![
        vec![amp(0.0, 0.0), amp(0.0, 1.0)],
        vec![amp(0.0, -1.0), amp(0.0, 0.0)],
    ];
    System::new(ham)
}

fn amps_of(s: &State) -> Vec<Amp> {
    match s.get_braket() {
        quantum_tools::braket::Braket::Bra(v) => v.clone(),
        quantum_tools::braket::Braket::Ket(v) => v.clone(),
    }
}

#[test]
fn evolve_psi_mismatched_lengths_fail() {
    let system = system2();
    let psi = State::solution_ket_from_slice(&[1.0f64.to_bits()], None).unwrap();
    let psi = psi.with_system(&system);
    let res = psi.evolve(0.1f64.to_bits());
    assert_eq!(
        res.unwrap_err(),
        QuantumError::DimensionMismatch { expected: 2, actual: 1 }
    );
}

#[test]
fn evolve_unbound_state_fails() {
    let psi = State::solution_ket_from_slice(&[0.1f64.to_bits(), 0.5f64.to_bits()], None)
        .unwrap();
    let res = psi.evolve(0.1f64.to_bits());
    assert_eq!(res.unwrap_err(), QuantumError::UnboundSystem);
}

#[test]
fn factories_normalize_at_birth() {
    let psi = State::solution_ket_from_slice(&[0.1f64.to_bits(), 0.5f64.to_bits()], None)
        .unwrap();
    let a = amps_of(&psi);
    assert!(close(re_of(a[0]), 0.19611613513818404, 1e-15));
    assert!(close(re_of(a[1]), 0.9805806756909202, 1e-15));
    assert_eq!(im_of(a[0]), 0.0);
    assert_eq!(im_of(a[1]), 0.0);
}

#[test]
fn evolve_solution_psi_valid_success() {
    let system = system2();
    let psi = State::solution_ket_from_slice(&[0.1f64.to_bits(), 0.5f64.to_bits()], None)
        .unwrap();
    let psi = psi.with_system(&system);
    let res = psi.evolve(0.1f64.to_bits()).unwrap();
    let a = amps_of(&res);
    assert!(close(re_of(a[0]), 0.1951363713407213, 1e-12));
    assert!(close(im_of(a[0]), 0.01957894383041598, 1e-12));
    assert!(close(re_of(a[1]), 0.9756818567036065, 1e-12));
    assert!(close(im_of(a[1]), -0.09789471915207991, 1e-12));
}

#[test]
fn get_probabilities_test() {
    let psi = State::solution_ket_from_slice(&[0.1f64.to_bits(), 0.5f64.to_bits()], None)
        .unwrap();
    let probs = psi.get_probabilities();
    assert!(close(f64::from_bits(probs[0]), 0.03846153846153846, 1e-15));
    assert!(close(f64::from_bits(probs[1]), 0.9615384615384615, 1e-15));
}
