use quantum_tools::amp::Amp;
use quantum_tools::braket::Braket;
use quantum_tools::state::State;
use quantum_tools::system::System;

fn amp(re: f64, im: f64) -> Amp {
    Amp { re: re.to_bits(), im: im.to_bits() }
}

fn re_of(a: Amp) -> f64 {
    f64::from_bits(a.re)
}

fn im_of(a: Amp) -> f64 {
    f64::from_bits(a.im)
}

fn close(a: f64, b: f64, tol: f64) -> bool {
    (a - b).abs() <= tol
}

fn system2() -> System {
    let ham = vec![
        vec![amp(0.0, 0.0), amp(0.0, 1.0)],
        vec![amp(0.0, -1.0), amp(0.0, 0.0)],
    ];
    System::new(ham)
}

fn amps_of(s: &State) -> Vec<Amp> {
    match s.get_braket() {
        Braket::Bra(v) => v.clone(),
        Braket::Ket(v) => v.clone(),
    }
}

fn states_close(a: &State, b: &State, tol: f64) -> bool {
    let u = amps_of(a);
    let v = amps_of(b);
    if u.len() != v.len() {
        return false;
    }
    for i in 0..u.len() {
        if !close(re_of(u[i]), re_of(v[i]), tol) || !close(im_of(u[i]), im_of(v[i]), tol) {
            return false;
        }
    }
    true
}

fn prob_sum(s: &State) -> f64 {
    s.get_probabilities().iter().map(|b| f64::from_bits(*b)).sum()
}

#[test]
fn round_trip_ket_through_solution_basis() {
    let system = system2();
    let psi = State::problem_ket_from_slice(&[1.0f64.to_bits(), 2.0f64.to_bits()], Some(&system))
        .unwrap();
    let there = psi.to_solution().unwrap();
    let back = there.to_problem().unwrap();
    assert!(states_close(&psi, &back, 1e-12));
    assert!(matches!(back, State::Problem(_)));
}

#[test]
fn round_trip_solution_ket_through_problem_basis() {
    let system = system2();
    let psi = State::solution_ket(vec![amp(0.3, 0.1), amp(-0.2, 0.5)], Some(&system)).unwrap();
    let back = psi.to_problem().unwrap().to_solution().unwrap();
    assert!(states_close(&psi, &back, 1e-12));
    assert!(matches!(back, State::Solution(_)));
}

#[test]
fn round_trip_bra_through_solution_basis() {
    let system = system2();
    let phi = State::problem_bra(vec![amp(0.7, -0.4), amp(0.1, 0.2)], Some(&system)).unwrap();
    let back = phi.to_solution().unwrap().to_problem().unwrap();
    assert!(states_close(&phi, &back, 1e-12));
    assert!(phi.is_bra() && back.is_bra());
}

#[test]
fn norm_is_conserved_by_factories_and_evolution() {
    let system = system2();
    let states = vec![
        State::problem_ket(vec![amp(1.0, 0.0), amp(2.0, 0.0)], Some(&system)).unwrap(),
        State::solution_ket(vec![amp(0.1, 0.9), amp(-0.5, 0.2)], Some(&system)).unwrap(),
        State::problem_bra(vec![amp(1.0, 2.0), amp(3.0, -1.0)], Some(&system)).unwrap(),
        State::solution_bra(vec![amp(0.0, 1.0), amp(1.0, 0.0)], Some(&system)).unwrap(),
    ];
    for s in &states {
        assert!(close(prob_sum(s), 1.0, 1e-12));
        for t in [-2.5f64, 0.0, 0.1, 0.7, 3.9] {
            let evolved = s.evolve(t.to_bits()).unwrap();
            assert!(close(prob_sum(&evolved), 1.0, 1e-10));
        }
    }
}

#[test]
fn evolution_by_zero_is_identity() {
    let system = system2();
    let psi = State::solution_ket_from_slice(&[0.1f64.to_bits(), 0.5f64.to_bits()], Some(&system))
        .unwrap();
    let evolved = psi.evolve(0.0f64.to_bits()).unwrap();
    assert!(states_close(&psi, &evolved, 1e-15));
}

#[test]
fn evolution_composes_in_solution_basis() {
    let system = system2();
    let psi = State::solution_ket(vec![amp(0.1, 0.2), amp(0.5, -0.3)], Some(&system)).unwrap();
    let twice = psi.evolve(0.3f64.to_bits()).unwrap().evolve(0.4f64.to_bits()).unwrap();
    let once = psi.evolve(0.7f64.to_bits()).unwrap();
    assert!(states_close(&twice, &once, 1e-12));
}

#[test]
fn evolution_composes_in_problem_basis() {
    let system = system2();
    let psi = State::problem_ket(vec![amp(1.0, 0.0), amp(0.5, 0.5)], Some(&system)).unwrap();
    let twice = psi.evolve(1.1f64.to_bits()).unwrap().evolve((-0.4f64).to_bits()).unwrap();
    let once = psi.evolve(0.7f64.to_bits()).unwrap();
    assert!(states_close(&twice, &once, 1e-10));
    assert!(matches!(once, State::Problem(_)));
}

#[test]
fn bra_evolves_by_the_conjugate_phases() {
    let system = system2();
    let phi = State::solution_bra(vec![amp(0.1, 0.0), amp(0.5, 0.0)], Some(&system)).unwrap();
    let res = phi.evolve(0.1f64.to_bits()).unwrap();
    let a = amps_of(&res);
    // The dual of the ket convention: exp(+i * lambda * t) on each component.
    assert!(close(re_of(a[0]), 0.1951363713407213, 1e-12));
    assert!(close(im_of(a[0]), -0.01957894383041598, 1e-12));
    assert!(close(re_of(a[1]), 0.9756818567036065, 1e-12));
    assert!(close(im_of(a[1]), 0.09789471915207991, 1e-12));
}

#[test]
fn problem_basis_evolution_follows_the_hamiltonian() {
    // For H = [[0, i], [-i, 0]] the problem-basis ket (1, 0) evolves to
    // (cos t, -sin t): the occupation probabilities swing as cos^2/sin^2.
    let system = system2();
    let psi = State::problem_ket(vec![amp(1.0, 0.0), amp(0.0, 0.0)], Some(&system)).unwrap();
    for t in [0.0f64, 0.3, 1.0, 2.2] {
        let evolved = psi.evolve(t.to_bits()).unwrap();
        let probs = evolved.get_probabilities();
        assert!(close(f64::from_bits(probs[0]), t.cos() * t.cos(), 1e-10));
        assert!(close(f64::from_bits(probs[1]), t.sin() * t.sin(), 1e-10));
    }
}

#[test]
fn eigensystem_is_sorted_and_memoized() {
    let mut system = system2();
    let first = system.eigensystem();
    assert_eq!(first.len(), 2);
    assert!(close(f64::from_bits(first[0].value), -1.0, 1e-12));
    assert!(close(f64::from_bits(first[1].value), 1.0, 1e-12));
    let second = system.eigensystem();
    assert_eq!(first.len(), second.len());
    for i in 0..first.len() {
        assert_eq!(first[i].value, second[i].value);
        assert_eq!(first[i].vector, second[i].vector);
    }
}

#[test]
fn to_solution_spreads_a_site_ket_evenly() {
    // Each eigenvector of [[0, i], [-i, 0]] has weight 1/2 on each site, so
    // projecting the first site ket onto the eigenbasis splits it evenly.
    let system = system2();
    let psi = State::problem_ket(vec![amp(1.0, 0.0), amp(0.0, 0.0)], Some(&system)).unwrap();
    let sol = psi.to_solution().unwrap();
    let probs = sol.get_probabilities();
    assert!(close(f64::from_bits(probs[0]), 0.5, 1e-12));
    assert!(close(f64::from_bits(probs[1]), 0.5, 1e-12));
}

#[test]
fn one_dimensional_system_evolves_by_a_pure_phase() {
    // H = [[2]]: the single amplitude picks up exp(-2it) and nothing else.
    let system = System::new(vec![vec![amp(2.0, 0.0)]]);
    let psi = State::solution_ket(vec![amp(1.0, 0.0)], Some(&system)).unwrap();
    let t = 0.7f64;
    let evolved = psi.evolve(t.to_bits()).unwrap();
    let a = amps_of(&evolved);
    assert!(close(re_of(a[0]), (2.0 * t).cos(), 1e-12));
    assert!(close(im_of(a[0]), -(2.0 * t).sin(), 1e-12));
    assert!(close(prob_sum(&evolved), 1.0, 1e-12));
}

#[test]
fn diagonal_hamiltonian_orders_its_spectrum_ascending() {
    // H = diag(3, 1, 2): the eigenbasis is the site basis permuted so the
    // eigenvalues come out ascending, so converting a site ket reorders
    // the occupation probabilities accordingly.
    let system = System::new(vec![
        vec![amp(3.0, 0.0), amp(0.0, 0.0), amp(0.0, 0.0)],
        vec![amp(0.0, 0.0), amp(1.0, 0.0), amp(0.0, 0.0)],
        vec![amp(0.0, 0.0), amp(0.0, 0.0), amp(2.0, 0.0)],
    ]);
    let mut sys = system.clone();
    let pairs = sys.eigensystem();
    assert!(close(f64::from_bits(pairs[0].value), 1.0, 1e-12));
    assert!(close(f64::from_bits(pairs[1].value), 2.0, 1e-12));
    assert!(close(f64::from_bits(pairs[2].value), 3.0, 1e-12));

    let psi = State::problem_ket(
        vec![amp(1.0, 0.0), amp(2.0, 0.0), amp(3.0, 0.0)],
        Some(&system),
    )
    .unwrap();
    let sol = psi.to_solution().unwrap();
    let probs: Vec<f64> = sol.get_probabilities().iter().map(|b| f64::from_bits(*b)).collect();
    assert!(close(probs[0], 4.0 / 14.0, 1e-12));
    assert!(close(probs[1], 9.0 / 14.0, 1e-12));
    assert!(close(probs[2], 1.0 / 14.0, 1e-12));
}
