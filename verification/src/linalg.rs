//! Verified vector operations over amplitudes: inner products, matrix
//! application by columns, normalization, Born-rule probabilities, and the
//! diagonal evolution maps.
//!
//! Each executable function's contract pins its result to an exact spec
//! formula over the named scalar primitives of [`crate::fp`]; sums are
//! folded left to right, and the contracts record that order.

use vstd::prelude::*;

use crate::amp::{
    amp_add, amp_add_of, amp_conj, amp_div_real, amp_div_real_of, amp_is_zero, amp_mul, amp_mul_of,
    amp_phase, amp_prob, amp_zero, amp_zero_test, conj_of, phase_of, prob_of, Amp,
};
use crate::fp::{add_bits, add_of, sqrt_bits, sqrt_of};

verus! {

/// The first `n` terms of the conjugating inner product
/// `sum_j conj(u[j]) * v[j]`, folded left to right from zero.
pub open spec fn dot_conj_prefix(u: Seq<Amp>, v: Seq<Amp>, n: int) -> Amp
    decreases n,
{
    if n <= 0 {
        amp_zero()
    } else {
        amp_add_of(dot_conj_prefix(u, v, n - 1), amp_mul_of(conj_of(u[n - 1]), v[n - 1]))
    }
}

/// The conjugating inner product `<u, v> = sum_j conj(u[j]) * v[j]`.
pub open spec fn dot_conj_of(u: Seq<Amp>, v: Seq<Amp>) -> Amp {
    dot_conj_prefix(u, v, u.len() as int)
}

/// The first `n` terms of the plain bilinear product `sum_j u[j] * v[j]`,
/// folded left to right from zero.
pub open spec fn dot_plain_prefix(u: Seq<Amp>, v: Seq<Amp>, n: int) -> Amp
    decreases n,
{
    if n <= 0 {
        amp_zero()
    } else {
        amp_add_of(dot_plain_prefix(u, v, n - 1), amp_mul_of(u[n - 1], v[n - 1]))
    }
}

/// The plain bilinear product `sum_j u[j] * v[j]` (no conjugation).
pub open spec fn dot_plain_of(u: Seq<Amp>, v: Seq<Amp>) -> Amp {
    dot_plain_prefix(u, v, u.len() as int)
}

/// The first `n` terms of the squared 2-norm `sum_j |v[j]|^2`, folded left
/// to right from the positive-zero bit pattern.
pub open spec fn norm_sq_prefix(v: Seq<Amp>, n: int) -> u64
    decreases n,
{
    if n <= 0 {
        0
    } else {
        add_of(norm_sq_prefix(v, n - 1), prob_of(v[n - 1]))
    }
}

/// The 2-norm of an amplitude vector.
pub open spec fn norm_of(v: Seq<Amp>) -> u64 {
    sqrt_of(norm_sq_prefix(v, v.len() as int))
}

/// The vector scaled to unit 2-norm: every component divided by the norm.
pub open spec fn normalized_of(v: Seq<Amp>) -> Seq<Amp> {
    Seq::new(v.len(), |i: int| amp_div_real_of(v[i], norm_of(v)))
}

/// The Born-rule weights: the squared magnitude of every component.
pub open spec fn probs_of(v: Seq<Amp>) -> Seq<u64> {
    Seq::new(v.len(), |i: int| prob_of(v[i]))
}

/// Whether every component of the vector is an exact (signed) zero.
pub open spec fn all_zero(v: Seq<Amp>) -> bool {
    forall|i: int| 0 <= i < v.len() ==> amp_is_zero(#[trigger] v[i])
}

/// The view of a matrix held as a vector of columns (or rows).
pub open spec fn mat_of(rows: Seq<Vec<Amp>>) -> Seq<Seq<Amp>> {
    rows.map_values(|r: Vec<Amp>| r@)
}

/// Whether `cols` is a square family: `n` vectors of length `n` each.
pub open spec fn square_of(cols: Seq<Seq<Amp>>, n: nat) -> bool {
    cols.len() == n && forall|i: int| 0 <= i < n ==> (#[trigger] cols[i]).len() == n
}

/// Row `j` of the matrix whose columns are `cols`.
pub open spec fn row_of(cols: Seq<Seq<Amp>>, j: int) -> Seq<Amp> {
    Seq::new(cols.len(), |i: int| cols[i][j])
}

/// A ket sent to the eigenbasis: component `i` is `<cols[i], v>`.
pub open spec fn adjoint_ket_of(cols: Seq<Seq<Amp>>, v: Seq<Amp>) -> Seq<Amp> {
    Seq::new(cols.len(), |i: int| dot_conj_of(cols[i], v))
}

/// A ket sent back from the eigenbasis: component `j` is
/// `sum_i w[i] * cols[i][j]`.
pub open spec fn matrix_ket_of(cols: Seq<Seq<Amp>>, w: Seq<Amp>) -> Seq<Amp> {
    Seq::new(cols.len(), |j: int| dot_plain_of(w, row_of(cols, j)))
}

/// A bra sent to the eigenbasis: component `i` is `sum_j r[j] * cols[i][j]`.
pub open spec fn matrix_bra_of(cols: Seq<Seq<Amp>>, r: Seq<Amp>) -> Seq<Amp> {
    Seq::new(cols.len(), |i: int| dot_plain_of(r, cols[i]))
}

/// A bra sent back from the eigenbasis: component `j` is
/// `sum_i conj(cols[i][j]) * r[i]`.
pub open spec fn adjoint_bra_of(cols: Seq<Seq<Amp>>, r: Seq<Amp>) -> Seq<Amp> {
    Seq::new(cols.len(), |j: int| dot_conj_of(row_of(cols, j), r))
}

/// A ket evolved in the eigenbasis: component `i` is multiplied by the
/// phase `exp(-i * vals[i] * t)`.
pub open spec fn evolve_ket_of(vals: Seq<u64>, t: u64, v: Seq<Amp>) -> Seq<Amp> {
    Seq::new(v.len(), |i: int| amp_mul_of(phase_of(vals[i], t), v[i]))
}

/// A bra evolved in the eigenbasis: the dual operator applies the
/// conjugated phase `exp(+i * vals[i] * t)`.
pub open spec fn evolve_bra_of(vals: Seq<u64>, t: u64, v: Seq<Amp>) -> Seq<Amp> {
    Seq::new(v.len(), |i: int| amp_mul_of(conj_of(phase_of(vals[i], t)), v[i]))
}

/// The conjugating inner product of two vectors of equal length.
pub fn dot_conj(u: &Vec<Amp>, v: &Vec<Amp>) -> (r: Amp)
    requires
        u@.len() == v@.len(),
    ensures
        r == dot_conj_of(u@, v@),
{
    let mut acc = Amp { re: 0, im: 0 };
    let mut j: usize = 0;
    while j < u.len()
        invariant
            j <= u@.len(),
            u@.len() == v@.len(),
            acc == dot_conj_prefix(u@, v@, j as int),
        decreases u@.len() - j,
    {
        acc = amp_add(acc, amp_mul(amp_conj(u[j]), v[j]));
        j = j + 1;
    }
    acc
}

/// The plain bilinear product of two vectors of equal length.
pub fn dot_plain(u: &Vec<Amp>, v: &Vec<Amp>) -> (r: Amp)
    requires
        u@.len() == v@.len(),
    ensures
        r == dot_plain_of(u@, v@),
{
    let mut acc = Amp { re: 0, im: 0 };
    let mut j: usize = 0;
    while j < u.len()
        invariant
            j <= u@.len(),
            u@.len() == v@.len(),
            acc == dot_plain_prefix(u@, v@, j as int),
        decreases u@.len() - j,
    {
        acc = amp_add(acc, amp_mul(u[j], v[j]));
        j = j + 1;
    }
    acc
}

/// A fresh copy of an amplitude vector.
pub fn copy_amps(v: &Vec<Amp>) -> (r: Vec<Amp>)
    ensures
        r@ == v@,
{
    let mut r: Vec<Amp> = Vec::new();
    let mut j: usize = 0;
    while j < v.len()
        invariant
            j <= v@.len(),
            r@ == v@.take(j as int),
        decreases v@.len() - j,
    {
        r.push(v[j]);
        j = j + 1;
    }
    proof {
        assert(r@ =~= v@);
    }
    r
}

/// The vector scaled to unit 2-norm.
pub fn normalize(v: &Vec<Amp>) -> (r: Vec<Amp>)
    ensures
        r@ == normalized_of(v@),
        r@.len() == v@.len(),
{
    let mut ns: u64 = 0;
    let mut j: usize = 0;
    while j < v.len()
        invariant
            j <= v@.len(),
            ns == norm_sq_prefix(v@, j as int),
        decreases v@.len() - j,
    {
        ns = add_bits(ns, amp_prob(v[j]));
        j = j + 1;
    }
    let norm = sqrt_bits(ns);
    assert(norm == norm_of(v@));
    let mut r: Vec<Amp> = Vec::new();
    let mut k: usize = 0;
    while k < v.len()
        invariant
            k <= v@.len(),
            norm == norm_of(v@),
            r@.len() == k,
            forall|i: int| 0 <= i < k ==> r@[i] == amp_div_real_of(v@[i], norm_of(v@)),
        decreases v@.len() - k,
    {
        r.push(amp_div_real(v[k], norm));
        k = k + 1;
    }
    proof {
        assert(r@ =~= normalized_of(v@));
    }
    r
}

/// The Born-rule weights of a vector's components.
pub fn born_probs(v: &Vec<Amp>) -> (r: Vec<u64>)
    ensures
        r@ == probs_of(v@),
{
    let mut r: Vec<u64> = Vec::new();
    let mut j: usize = 0;
    while j < v.len()
        invariant
            j <= v@.len(),
            r@.len() == j,
            forall|i: int| 0 <= i < j ==> r@[i] == prob_of(v@[i]),
        decreases v@.len() - j,
    {
        r.push(amp_prob(v[j]));
        j = j + 1;
    }
    proof {
        assert(r@ =~= probs_of(v@));
    }
    r
}

/// Whether every component of the vector is an exact zero.
pub fn is_zero_vec(v: &Vec<Amp>) -> (r: bool)
    ensures
        r == all_zero(v@),
{
    let mut j: usize = 0;
    while j < v.len()
        invariant
            j <= v@.len(),
            forall|i: int| 0 <= i < j ==> amp_is_zero(#[trigger] v@[i]),
        decreases v@.len() - j,
    {
        if !amp_zero_test(v[j]) {
            return false;
        }
        j = j + 1;
    }
    true
}

/// Row `j` of the matrix held as columns `cols`.
pub fn gather_row(cols: &Vec<Vec<Amp>>, j: usize) -> (r: Vec<Amp>)
    requires
        forall|i: int| 0 <= i < cols@.len() ==> j < (#[trigger] cols@[i])@.len(),
    ensures
        r@ == row_of(mat_of(cols@), j as int),
{
    let mut r: Vec<Amp> = Vec::new();
    let mut i: usize = 0;
    while i < cols.len()
        invariant
            i <= cols@.len(),
            forall|k: int| 0 <= k < cols@.len() ==> j < (#[trigger] cols@[k])@.len(),
            r@.len() == i,
            forall|k: int| 0 <= k < i ==> r@[k] == mat_of(cols@)[k][j as int],
        decreases cols@.len() - i,
    {
        r.push(cols[i][j]);
        i = i + 1;
    }
    proof {
        assert(r@ =~= row_of(mat_of(cols@), j as int));
    }
    r
}

/// Applies the adjoint of the column matrix to a ket: the projection of
/// `v` onto each column.
pub fn apply_adjoint_ket(cols: &Vec<Vec<Amp>>, v: &Vec<Amp>) -> (r: Vec<Amp>)
    requires
        forall|i: int| 0 <= i < cols@.len() ==> (#[trigger] cols@[i])@.len() == cols@.len(),
        v@.len() == cols@.len(),
    ensures
        r@ == adjoint_ket_of(mat_of(cols@), v@),
        r@.len() == v@.len(),
{
    let mut r: Vec<Amp> = Vec::new();
    let mut i: usize = 0;
    while i < cols.len()
        invariant
            i <= cols@.len(),
            forall|n: int| 0 <= n < cols@.len() ==> (#[trigger] cols@[n])@.len() == cols@.len(),
            v@.len() == cols@.len(),
            r@.len() == i,
            forall|k: int| 0 <= k < i ==> r@[k] == dot_conj_of(mat_of(cols@)[k], v@),
        decreases cols@.len() - i,
    {
        r.push(dot_conj(&cols[i], v));
        i = i + 1;
    }
    proof {
        assert(r@ =~= adjoint_ket_of(mat_of(cols@), v@));
    }
    r
}

/// Applies the column matrix to a ket: component `j` of the result is the
/// `w`-weighted sum of the columns' `j`-th entries.
pub fn apply_matrix_ket(cols: &Vec<Vec<Amp>>, w: &Vec<Amp>) -> (r: Vec<Amp>)
    requires
        forall|i: int| 0 <= i < cols@.len() ==> (#[trigger] cols@[i])@.len() == cols@.len(),
        w@.len() == cols@.len(),
    ensures
        r@ == matrix_ket_of(mat_of(cols@), w@),
        r@.len() == w@.len(),
{
    let mut r: Vec<Amp> = Vec::new();
    let mut j: usize = 0;
    while j < cols.len()
        invariant
            j <= cols@.len(),
            forall|n: int| 0 <= n < cols@.len() ==> (#[trigger] cols@[n])@.len() == cols@.len(),
            w@.len() == cols@.len(),
            r@.len() == j,
            forall|k: int| 0 <= k < j ==> r@[k] == dot_plain_of(w@, row_of(mat_of(cols@), k)),
        decreases cols@.len() - j,
    {
        let row = gather_row(cols, j);
        r.push(dot_plain(w, &row));
        j = j + 1;
    }
    proof {
        assert(r@ =~= matrix_ket_of(mat_of(cols@), w@));
    }
    r
}

/// Applies the column matrix to a bra from the right: component `i` of the
/// result is the plain product of `rv` with column `i`.
pub fn apply_matrix_bra(cols: &Vec<Vec<Amp>>, rv: &Vec<Amp>) -> (r: Vec<Amp>)
    requires
        forall|i: int| 0 <= i < cols@.len() ==> (#[trigger] cols@[i])@.len() == cols@.len(),
        rv@.len() == cols@.len(),
    ensures
        r@ == matrix_bra_of(mat_of(cols@), rv@),
        r@.len() == rv@.len(),
{
    let mut r: Vec<Amp> = Vec::new();
    let mut i: usize = 0;
    while i < cols.len()
        invariant
            i <= cols@.len(),
            forall|n: int| 0 <= n < cols@.len() ==> (#[trigger] cols@[n])@.len() == cols@.len(),
            rv@.len() == cols@.len(),
            r@.len() == i,
            forall|k: int| 0 <= k < i ==> r@[k] == dot_plain_of(rv@, mat_of(cols@)[k]),
        decreases cols@.len() - i,
    {
        r.push(dot_plain(rv, &cols[i]));
        i = i + 1;
    }
    proof {
        assert(r@ =~= matrix_bra_of(mat_of(cols@), rv@));
    }
    r
}

/// Applies the adjoint of the column matrix to a bra from the right:
/// component `j` conjugates the columns' `j`-th entries.
pub fn apply_adjoint_bra(cols: &Vec<Vec<Amp>>, rv: &Vec<Amp>) -> (r: Vec<Amp>)
    requires
        forall|i: int| 0 <= i < cols@.len() ==> (#[trigger] cols@[i])@.len() == cols@.len(),
        rv@.len() == cols@.len(),
    ensures
        r@ == adjoint_bra_of(mat_of(cols@), rv@),
        r@.len() == rv@.len(),
{
    let mut r: Vec<Amp> = Vec::new();
    let mut j: usize = 0;
    while j < cols.len()
        invariant
            j <= cols@.len(),
            forall|n: int| 0 <= n < cols@.len() ==> (#[trigger] cols@[n])@.len() == cols@.len(),
            rv@.len() == cols@.len(),
            r@.len() == j,
            forall|k: int| 0 <= k < j ==> r@[k] == dot_conj_of(row_of(mat_of(cols@), k), rv@),
        decreases cols@.len() - j,
    {
        let row = gather_row(cols, j);
        r.push(dot_conj(&row, rv));
        j = j + 1;
    }
    proof {
        assert(r@ =~= adjoint_bra_of(mat_of(cols@), rv@));
    }
    r
}

/// Evolves a ket in the eigenbasis: component `i` is rotated by the phase
/// of eigenvalue `vals[i]` over time `t`.
pub fn evolve_ket(vals: &Vec<u64>, t: u64, v: &Vec<Amp>) -> (r: Vec<Amp>)
    requires
        vals@.len() == v@.len(),
    ensures
        r@ == evolve_ket_of(vals@, t, v@),
        r@.len() == v@.len(),
{
    let mut r: Vec<Amp> = Vec::new();
    let mut i: usize = 0;
    while i < v.len()
        invariant
            i <= v@.len(),
            vals@.len() == v@.len(),
            r@.len() == i,
            forall|k: int| 0 <= k < i ==> r@[k] == amp_mul_of(phase_of(vals@[k], t), v@[k]),
        decreases v@.len() - i,
    {
        r.push(amp_mul(amp_phase(vals[i], t), v[i]));
        i = i + 1;
    }
    proof {
        assert(r@ =~= evolve_ket_of(vals@, t, v@));
    }
    r
}

/// Evolves a bra in the eigenbasis with the conjugated (adjoint) phases.
pub fn evolve_bra(vals: &Vec<u64>, t: u64, v: &Vec<Amp>) -> (r: Vec<Amp>)
    requires
        vals@.len() == v@.len(),
    ensures
        r@ == evolve_bra_of(vals@, t, v@),
        r@.len() == v@.len(),
{
    let mut r: Vec<Amp> = Vec::new();
    let mut i: usize = 0;
    while i < v.len()
        invariant
            i <= v@.len(),
            vals@.len() == v@.len(),
            r@.len() == i,
            forall|k: int| 0 <= k < i ==> r@[k] == amp_mul_of(conj_of(phase_of(vals@[k], t)), v@[k]),
        decreases v@.len() - i,
    {
        r.push(amp_mul(amp_conj(amp_phase(vals[i], t)), v[i]));
        i = i + 1;
    }
    proof {
        assert(r@ =~= evolve_bra_of(vals@, t, v@));
    }
    r
}

} // verus!
