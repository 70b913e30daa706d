//! The spectral cache: a `System` owns an immutable Hermitian Hamiltonian
//! and lazily computes, memoizes and hands out its eigendecomposition.
//!
//! The decomposition itself comes from nalgebra through one trusted wrapper;
//! its result is named by the uninterpreted [`eig_of`].  Because nalgebra
//! returns the eigenvalues in no particular order, the library puts the
//! pairs into a canonical order of its own: ascending by eigenvalue, using
//! the standard monotone mapping from IEEE-754 bit patterns to unsigned
//! integers.  That sort is ordinary verified code, so a system's cached
//! spectrum is pinned, by contract, to an exact function of its Hamiltonian.

use vstd::prelude::*;

use nalgebra::DMatrix;
use num::complex::Complex64;

use crate::amp::Amp;
use crate::fp::SIGN_MASK;
use crate::linalg::{copy_amps, mat_of, square_of};

verus! {

/// One eigenvalue (as the bit pattern of a real double) together with its
/// eigenvector column.
#[derive(Debug)]
pub struct EigPair {
    pub value: u64,
    pub vector: Vec<Amp>,
}

/// The mathematical content of an eigenpair: the eigenvalue bits and the
/// column as a sequence.
pub open spec fn pair_view(p: EigPair) -> (u64, Seq<Amp>) {
    (p.value, p.vector@)
}

/// The mathematical content of a list of eigenpairs.
pub open spec fn pairs_view(s: Seq<EigPair>) -> Seq<(u64, Seq<Amp>)> {
    s.map_values(|p: EigPair| pair_view(p))
}

/// Pairs each eigenvalue with its column.
pub open spec fn zip_pairs(vals: Seq<u64>, vecs: Seq<Seq<Amp>>) -> Seq<(u64, Seq<Amp>)> {
    Seq::new(vals.len(), |i: int| (vals[i], vecs[i]))
}

/// The monotone map from the bit pattern of a double to an unsigned key:
/// negative doubles are complemented, positive ones get the sign bit set.
/// Comparing keys orders doubles ascending (with the negative range, zeros
/// and NaN payloads in a fixed total order).
pub open spec fn order_key(b: u64) -> u64 {
    if b & SIGN_MASK != 0 {
        !b
    } else {
        b | SIGN_MASK
    }
}

/// Inserts a pair into a run already sorted by [`order_key`], keeping
/// earlier entries first among equal keys.
pub open spec fn insert_sorted(s: Seq<(u64, Seq<Amp>)>, p: (u64, Seq<Amp>)) -> Seq<
    (u64, Seq<Amp>),
>
    decreases s.len(),
{
    if s.len() == 0 {
        seq![p]
    } else if order_key(p.0) < order_key(s.last().0) {
        insert_sorted(s.drop_last(), p).push(s.last())
    } else {
        s.push(p)
    }
}

/// Insertion sort of eigenpairs by ascending eigenvalue.
pub open spec fn sort_pairs_spec(s: Seq<(u64, Seq<Amp>)>) -> Seq<(u64, Seq<Amp>)>
    decreases s.len(),
{
    if s.len() == 0 {
        s
    } else {
        insert_sorted(sort_pairs_spec(s.drop_last()), s.last())
    }
}

/// The eigendecomposition nalgebra computes for a square Hermitian matrix:
/// the eigenvalue bit patterns and the eigenvector columns, in the order
/// the algorithm produces them.
pub uninterp spec fn eig_of(h: Seq<Seq<Amp>>) -> (Seq<u64>, Seq<Seq<Amp>>);

pub proof fn lemma_insert_sorted_len(s: Seq<(u64, Seq<Amp>)>, p: (u64, Seq<Amp>))
    ensures
        insert_sorted(s, p).len() == s.len() + 1,
    decreases s.len(),
{
    if s.len() == 0 {
    } else if order_key(p.0) < order_key(s.last().0) {
        lemma_insert_sorted_len(s.drop_last(), p);
    }
}

pub proof fn lemma_sort_pairs_len(s: Seq<(u64, Seq<Amp>)>)
    ensures
        sort_pairs_spec(s).len() == s.len(),
    decreases s.len(),
{
    if s.len() == 0 {
    } else {
        lemma_sort_pairs_len(s.drop_last());
        lemma_insert_sorted_len(sort_pairs_spec(s.drop_last()), s.last());
    }
}

pub proof fn lemma_insert_sorted_elem_len(s: Seq<(u64, Seq<Amp>)>, p: (u64, Seq<Amp>), n: nat)
    requires
        forall|i: int| 0 <= i < s.len() ==> (#[trigger] s[i]).1.len() == n,
        p.1.len() == n,
    ensures
        forall|i: int|
            0 <= i < insert_sorted(s, p).len() ==> (#[trigger] insert_sorted(s, p)[i]).1.len()
                == n,
    decreases s.len(),
{
    if s.len() == 0 {
        assert forall|i: int|
            0 <= i < insert_sorted(s, p).len() implies (#[trigger] insert_sorted(s, p)[i]).1.len()
            == n by {
            assert(insert_sorted(s, p)[i] == p);
        }
    } else if order_key(p.0) < order_key(s.last().0) {
        assert forall|i: int|
            0 <= i < s.drop_last().len() implies (#[trigger] s.drop_last()[i]).1.len() == n by {
            assert(s.drop_last()[i] == s[i]);
        }
        lemma_insert_sorted_elem_len(s.drop_last(), p, n);
        let inner = insert_sorted(s.drop_last(), p);
        assert forall|i: int|
            0 <= i < insert_sorted(s, p).len() implies (#[trigger] insert_sorted(s, p)[i]).1.len()
            == n by {
            if i < inner.len() {
                assert(insert_sorted(s, p)[i] == inner[i]);
            } else {
                assert(insert_sorted(s, p)[i] == s.last());
            }
        }
    } else {
        assert forall|i: int|
            0 <= i < insert_sorted(s, p).len() implies (#[trigger] insert_sorted(s, p)[i]).1.len()
            == n by {
            if i < s.len() {
                assert(insert_sorted(s, p)[i] == s[i]);
            } else {
                assert(insert_sorted(s, p)[i] == p);
            }
        }
    }
}

pub proof fn lemma_sort_pairs_elem_len(s: Seq<(u64, Seq<Amp>)>, n: nat)
    requires
        forall|i: int| 0 <= i < s.len() ==> (#[trigger] s[i]).1.len() == n,
    ensures
        forall|i: int|
            0 <= i < sort_pairs_spec(s).len() ==> (#[trigger] sort_pairs_spec(s)[i]).1.len() == n,
    decreases s.len(),
{
    if s.len() == 0 {
    } else {
        assert forall|i: int|
            0 <= i < s.drop_last().len() implies (#[trigger] s.drop_last()[i]).1.len() == n by {
            assert(s.drop_last()[i] == s[i]);
        }
        lemma_sort_pairs_elem_len(s.drop_last(), n);
        lemma_insert_sorted_elem_len(sort_pairs_spec(s.drop_last()), s.last(), n);
    }
}

/// Whether the pairs stand in the canonical order: ascending by the
/// eigenvalues' order keys.
pub open spec fn sorted_by_key(s: Seq<(u64, Seq<Amp>)>) -> bool {
    forall|i: int, j: int|
        0 <= i <= j < s.len() ==> order_key((#[trigger] s[i]).0) <= order_key((#[trigger] s[j]).0)
}

pub proof fn lemma_insert_sorted_contains(s: Seq<(u64, Seq<Amp>)>, p: (u64, Seq<Amp>))
    ensures
        forall|k: int|
            0 <= k < insert_sorted(s, p).len() ==> (#[trigger] insert_sorted(s, p)[k]) == p
                || s.contains(insert_sorted(s, p)[k]),
    decreases s.len(),
{
    let t = insert_sorted(s, p);
    if s.len() == 0 {
        assert forall|k: int| 0 <= k < t.len() implies (#[trigger] t[k]) == p || s.contains(
            t[k],
        ) by {
            assert(t[k] == p);
        }
    } else if order_key(p.0) < order_key(s.last().0) {
        lemma_insert_sorted_contains(s.drop_last(), p);
        let inner = insert_sorted(s.drop_last(), p);
        assert forall|k: int| 0 <= k < t.len() implies (#[trigger] t[k]) == p || s.contains(
            t[k],
        ) by {
            if k < inner.len() {
                assert(t[k] == inner[k]);
                if inner[k] != p {
                    let idx = choose|idx: int|
                        0 <= idx < s.drop_last().len() && s.drop_last()[idx] == inner[k];
                    assert(s[idx] == t[k]);
                }
            } else {
                assert(t[k] == s.last());
                assert(s[s.len() - 1] == s.last());
            }
        }
    } else {
        assert forall|k: int| 0 <= k < t.len() implies (#[trigger] t[k]) == p || s.contains(
            t[k],
        ) by {
            if k < s.len() {
                assert(t[k] == s[k]);
            } else {
                assert(t[k] == p);
            }
        }
    }
}

/// Inserting into a run in canonical order keeps the canonical order.
pub proof fn lemma_insert_sorted_ordered(s: Seq<(u64, Seq<Amp>)>, p: (u64, Seq<Amp>))
    requires
        sorted_by_key(s),
    ensures
        sorted_by_key(insert_sorted(s, p)),
    decreases s.len(),
{
    let t = insert_sorted(s, p);
    if s.len() == 0 {
    } else if order_key(p.0) < order_key(s.last().0) {
        assert forall|i: int, j: int|
            0 <= i <= j < s.drop_last().len() implies order_key(
            (#[trigger] s.drop_last()[i]).0,
        ) <= order_key((#[trigger] s.drop_last()[j]).0) by {
            assert(s.drop_last()[i] == s[i]);
            assert(s.drop_last()[j] == s[j]);
        }
        lemma_insert_sorted_ordered(s.drop_last(), p);
        lemma_insert_sorted_contains(s.drop_last(), p);
        let inner = insert_sorted(s.drop_last(), p);
        assert forall|k: int| 0 <= k < inner.len() implies order_key((#[trigger] inner[k]).0)
            <= order_key(s.last().0) by {
            if inner[k] == p {
            } else {
                let idx = choose|idx: int|
                    0 <= idx < s.drop_last().len() && s.drop_last()[idx] == inner[k];
                assert(s[idx] == inner[k]);
                assert(order_key(s[idx].0) <= order_key(s[s.len() - 1].0));
            }
        }
        assert forall|i: int, j: int| 0 <= i <= j < t.len() implies order_key(
            (#[trigger] t[i]).0,
        ) <= order_key((#[trigger] t[j]).0) by {
            if j < inner.len() {
                assert(t[i] == inner[i]);
                assert(t[j] == inner[j]);
            } else {
                assert(t[j] == s.last());
                if i < inner.len() {
                    assert(t[i] == inner[i]);
                } else {
                    assert(t[i] == s.last());
                }
            }
        }
    } else {
        assert forall|i: int, j: int| 0 <= i <= j < t.len() implies order_key(
            (#[trigger] t[i]).0,
        ) <= order_key((#[trigger] t[j]).0) by {
            if j < s.len() {
                assert(t[i] == s[i]);
                assert(t[j] == s[j]);
            } else {
                assert(t[j] == p);
                if i < s.len() {
                    assert(t[i] == s[i]);
                    assert(order_key(s[i].0) <= order_key(s[s.len() - 1].0));
                }
            }
        }
    }
}

pub proof fn lemma_insert_sorted_multiset(s: Seq<(u64, Seq<Amp>)>, p: (u64, Seq<Amp>))
    ensures
        insert_sorted(s, p).to_multiset() == s.to_multiset().insert(p),
    decreases s.len(),
{
    broadcast use vstd::seq_lib::group_to_multiset_ensures;

    if s.len() == 0 {
        assert(insert_sorted(s, p) =~= s.push(p));
    } else if order_key(p.0) < order_key(s.last().0) {
        lemma_insert_sorted_multiset(s.drop_last(), p);
        assert(s.drop_last().push(s.last()) =~= s);
        assert(insert_sorted(s, p).to_multiset() =~= s.to_multiset().insert(p));
    } else {
    }
}

/// The canonical sort is a permutation: it keeps every eigenpair, with its
/// multiplicity.
pub proof fn lemma_sort_pairs_multiset(s: Seq<(u64, Seq<Amp>)>)
    ensures
        sort_pairs_spec(s).to_multiset() == s.to_multiset(),
    decreases s.len(),
{
    broadcast use vstd::seq_lib::group_to_multiset_ensures;

    if s.len() == 0 {
    } else {
        lemma_sort_pairs_multiset(s.drop_last());
        lemma_insert_sorted_multiset(sort_pairs_spec(s.drop_last()), s.last());
        assert(s.drop_last().push(s.last()) =~= s);
        assert(sort_pairs_spec(s).to_multiset() =~= s.to_multiset());
    }
}

/// The canonical sort leaves the pairs in canonical order.
pub proof fn lemma_sort_pairs_ordered(s: Seq<(u64, Seq<Amp>)>)
    ensures
        sorted_by_key(sort_pairs_spec(s)),
    decreases s.len(),
{
    if s.len() == 0 {
    } else {
        lemma_sort_pairs_ordered(s.drop_last());
        lemma_insert_sorted_ordered(sort_pairs_spec(s.drop_last()), s.last());
    }
}

/// A system's spectrum is canonical: sorted ascending by eigenvalue, and a
/// permutation of the decomposition the backend returned for its
/// Hamiltonian.
pub proof fn lemma_spectrum_canonical(sys: System)
    ensures
        sorted_by_key(sys.spectrum()),
        sys.spectrum().to_multiset() == zip_pairs(
            eig_of(sys.ham_view()).0,
            eig_of(sys.ham_view()).1,
        ).to_multiset(),
{
    let z = zip_pairs(eig_of(sys.ham_view()).0, eig_of(sys.ham_view()).1);
    lemma_sort_pairs_ordered(z);
    lemma_sort_pairs_multiset(z);
}

/// The [`order_key`] of an eigenvalue's bit pattern.
fn key_bits(b: u64) -> (r: u64)
    ensures
        r == order_key(b),
{
    if b & SIGN_MASK != 0 {
        !b
    } else {
        b | SIGN_MASK
    }
}

/// Inserts one pair into an already sorted vector of pairs.
fn insert_pair(s: Vec<EigPair>, p: EigPair) -> (r: Vec<EigPair>)
    ensures
        pairs_view(r@) == insert_sorted(pairs_view(s@), pair_view(p)),
    decreases s@.len(),
{
    let mut v = s;
    if v.len() == 0 {
        v.push(p);
        proof {
            assert(pairs_view(v@) =~= insert_sorted(pairs_view(s@), pair_view(p)));
        }
        v
    } else {
        let last = v.pop().unwrap();
        proof {
            assert(pairs_view(v@) =~= pairs_view(s@).drop_last());
            assert(pairs_view(s@).last() == pair_view(last));
        }
        if key_bits(p.value) < key_bits(last.value) {
            let mut r = insert_pair(v, p);
            r.push(last);
            proof {
                assert(pairs_view(r@) =~= insert_sorted(pairs_view(s@).drop_last(), pair_view(p))
                    .push(pairs_view(s@).last()));
            }
            r
        } else {
            v.push(last);
            v.push(p);
            proof {
                assert(pairs_view(v@) =~= pairs_view(s@).push(pair_view(p)));
            }
            v
        }
    }
}

/// Sorts eigenpairs by ascending eigenvalue (insertion sort).
fn sort_pairs(s: Vec<EigPair>) -> (r: Vec<EigPair>)
    ensures
        pairs_view(r@) == sort_pairs_spec(pairs_view(s@)),
    decreases s@.len(),
{
    let mut v = s;
    if v.len() == 0 {
        v
    } else {
        let last = v.pop().unwrap();
        proof {
            assert(pairs_view(v@) =~= pairs_view(s@).drop_last());
            assert(pairs_view(s@).last() == pair_view(last));
        }
        let rest = sort_pairs(v);
        insert_pair(rest, last)
    }
}

/// Pairs eigenvalues with their columns.
fn zip_pairs_exec(vals: &Vec<u64>, vecs: &Vec<Vec<Amp>>) -> (r: Vec<EigPair>)
    requires
        vals@.len() == vecs@.len(),
    ensures
        pairs_view(r@) == zip_pairs(vals@, mat_of(vecs@)),
{
    let mut r: Vec<EigPair> = Vec::new();
    let mut i: usize = 0;
    while i < vals.len()
        invariant
            i <= vals@.len(),
            vals@.len() == vecs@.len(),
            r@.len() == i,
            forall|k: int|
                0 <= k < i ==> (#[trigger] r@[k]).value == vals@[k] && r@[k].vector@ == vecs@[k]@,
        decreases vals@.len() - i,
    {
        r.push(EigPair { value: vals[i], vector: copy_amps(&vecs[i]) });
        i = i + 1;
    }
    proof {
        assert forall|k: int|
            0 <= k < r@.len() implies pairs_view(r@)[k] == #[trigger] zip_pairs(
            vals@,
            mat_of(vecs@),
        )[k] by {
            assert(pairs_view(r@)[k] == pair_view(r@[k]));
            assert(mat_of(vecs@)[k] == vecs@[k]@);
        }
        assert(pairs_view(r@) =~= zip_pairs(vals@, mat_of(vecs@)));
    }
    r
}

/// A fresh copy of a list of eigenpairs.
fn copy_pairs(s: &Vec<EigPair>) -> (r: Vec<EigPair>)
    ensures
        pairs_view(r@) == pairs_view(s@),
{
    let mut r: Vec<EigPair> = Vec::new();
    let mut i: usize = 0;
    while i < s.len()
        invariant
            i <= s@.len(),
            r@.len() == i,
            forall|k: int|
                0 <= k < i ==> (#[trigger] r@[k]).value == s@[k].value && r@[k].vector@
                    == s@[k].vector@,
        decreases s@.len() - i,
    {
        r.push(EigPair { value: s[i].value, vector: copy_amps(&s[i].vector) });
        i = i + 1;
    }
    proof {
        assert forall|k: int|
            0 <= k < r@.len() implies pairs_view(r@)[k] == #[trigger] pairs_view(s@)[k] by {
            assert(pairs_view(r@)[k] == pair_view(r@[k]));
            assert(pairs_view(s@)[k] == pair_view(s@[k]));
        }
        assert(pairs_view(r@) =~= pairs_view(s@));
    }
    r
}

/// The eigenvalues of a list of eigenpairs, in order.
pub fn pair_values(pairs: &Vec<EigPair>) -> (r: Vec<u64>)
    ensures
        r@.len() == pairs@.len(),
        forall|i: int| 0 <= i < pairs@.len() ==> r@[i] == (#[trigger] pairs@[i]).value,
{
    let mut r: Vec<u64> = Vec::new();
    let mut i: usize = 0;
    while i < pairs.len()
        invariant
            i <= pairs@.len(),
            r@.len() == i,
            forall|k: int| 0 <= k < i ==> r@[k] == (#[trigger] pairs@[k]).value,
        decreases pairs@.len() - i,
    {
        r.push(pairs[i].value);
        i = i + 1;
    }
    r
}

/// The eigenvector columns of a list of eigenpairs, in order.
pub fn pair_columns(pairs: &Vec<EigPair>) -> (r: Vec<Vec<Amp>>)
    ensures
        r@.len() == pairs@.len(),
        forall|i: int| 0 <= i < pairs@.len() ==> (#[trigger] r@[i])@ == pairs@[i].vector@,
{
    let mut r: Vec<Vec<Amp>> = Vec::new();
    let mut i: usize = 0;
    while i < pairs.len()
        invariant
            i <= pairs@.len(),
            r@.len() == i,
            forall|k: int| 0 <= k < i ==> (#[trigger] r@[k])@ == pairs@[k].vector@,
        decreases pairs@.len() - i,
    {
        r.push(copy_amps(&pairs[i].vector));
        i = i + 1;
    }
    r
}

/// Relies on nalgebra's `SymmetricEigen` (through `Matrix::symmetric_eigen`):
/// for a square Hermitian matrix of dimension at least one it returns real
/// eigenvalues and the matching eigenvector columns, both of the matrix's
/// dimension, computed by a deterministic algorithm from the matrix entries
/// alone (it panics on an empty matrix, so that input is excluded here).
/// `Complex64::new` and `bytemuck::cast` only convert between the stored bit
/// patterns and doubles.
#[verifier::external_body]
fn eigen_decompose(h: &Vec<Vec<Amp>>) -> (r: (Vec<u64>, Vec<Vec<Amp>>))
    requires
        h@.len() >= 1,
        forall|i: int| 0 <= i < h@.len() ==> (#[trigger] h@[i])@.len() == h@.len(),
    ensures
        r.0@ == eig_of(mat_of(h@)).0,
        mat_of(r.1@) == eig_of(mat_of(h@)).1,
        r.0@.len() == h@.len(),
        r.1@.len() == h@.len(),
        forall|i: int| 0 <= i < r.1@.len() ==> (#[trigger] r.1@[i])@.len() == h@.len(),
{
    let n = h.len();
    let mut data: Vec<Complex64> = Vec::new();
    for a in h.iter().flatten() {
        data.push(Complex64::new(bytemuck::cast(a.re), bytemuck::cast(a.im)));
    }
    let eig = DMatrix::from_row_slice(n, n, &data).symmetric_eigen();
    let vals = eig.eigenvalues.iter().map(|x| bytemuck::cast(*x)).collect();
    let vecs = (0..n).map(
        |j| eig.eigenvectors.column(j).iter().map(
            |z| Amp { re: bytemuck::cast(z.re), im: bytemuck::cast(z.im) },
        ).collect(),
    ).collect();
    (vals, vecs)
}

/// The spectral cache: an immutable Hamiltonian and, once computed, its
/// eigendecomposition in the library's canonical (eigenvalue-ascending)
/// order.  The Hamiltonian is fixed for the system's whole lifetime; the
/// cache is written at most once, on the first demand.
#[derive(Debug)]
pub struct System {
    pub(crate) ham: Vec<Vec<Amp>>,
    pub(crate) eigen: Option<Vec<EigPair>>,
}

impl System {
    /// The Hamiltonian, row by row.
    pub open(crate) spec fn ham_view(self) -> Seq<Seq<Amp>> {
        mat_of(self.ham@)
    }

    /// The cached spectrum, if it has been computed.
    pub open(crate) spec fn eigen_view(self) -> Option<Seq<(u64, Seq<Amp>)>> {
        match self.eigen {
            Some(p) => Some(pairs_view(p@)),
            None => None,
        }
    }

    /// The Hamiltonian's dimension.
    pub open spec fn dim(self) -> nat {
        self.ham_view().len()
    }

    /// The spectrum this system caches once asked for: nalgebra's
    /// decomposition of the Hamiltonian, sorted by ascending eigenvalue.
    pub open spec fn spectrum(self) -> Seq<(u64, Seq<Amp>)> {
        sort_pairs_spec(zip_pairs(eig_of(self.ham_view()).0, eig_of(self.ham_view()).1))
    }

    /// The eigenvalues of the spectrum, in the canonical order.
    pub open spec fn eigvals(self) -> Seq<u64> {
        Seq::new(self.spectrum().len(), |i: int| self.spectrum()[i].0)
    }

    /// The eigenvector columns of the spectrum, in the canonical order.
    pub open spec fn eigvecs(self) -> Seq<Seq<Amp>> {
        Seq::new(self.spectrum().len(), |i: int| self.spectrum()[i].1)
    }

    #[verifier::type_invariant]
    pub open(crate) spec fn wf(self) -> bool {
        &&& self.dim() >= 1
        &&& square_of(self.ham_view(), self.dim())
        &&& match self.eigen {
            Some(p) => {
                &&& pairs_view(p@) == self.spectrum()
                &&& p@.len() == self.dim()
                &&& forall|i: int|
                    0 <= i < p@.len() ==> (#[trigger] p@[i]).vector@.len() == self.dim()
            },
            None => true,
        }
    }

    /// Stores the Hamiltonian without computing anything.  The caller gives
    /// a square matrix of dimension at least one (the decomposition backend
    /// rejects an empty matrix); it is expected to be Hermitian, which no
    /// code here can check numerically.
    pub fn new(ham: Vec<Vec<Amp>>) -> (r: System)
        requires
            ham@.len() >= 1,
            forall|i: int| 0 <= i < ham@.len() ==> (#[trigger] ham@[i])@.len() == ham@.len(),
        ensures
            r.ham_view() == mat_of(ham@),
            r.dim() == ham@.len(),
            r.eigen_view() is None,
    {
        proof {
            assert forall|i: int| 0 <= i < ham@.len() implies (#[trigger] mat_of(ham@)[i]).len()
                == ham@.len() by {
                assert(mat_of(ham@)[i] == ham@[i]@);
            }
        }
        System { ham, eigen: None }
    }

    /// The Hamiltonian's dimension.
    pub fn dimension(&self) -> (n: usize)
        ensures
            n == self.dim(),
    {
        self.ham.len()
    }

    /// Returns the eigendecomposition, computing and memoizing it on the
    /// first call: the cache moves from empty to the canonical spectrum
    /// exactly once, and the Hamiltonian never changes.
    pub fn eigensystem(&mut self) -> (r: Vec<EigPair>)
        ensures
            final(self).ham_view() == old(self).ham_view(),
            final(self).eigen_view() == Some(old(self).spectrum()),
            old(self).eigen_view() is Some ==> final(self).eigen_view() == old(self).eigen_view(),
            pairs_view(r@) == old(self).spectrum(),
            r@.len() == old(self).dim(),
            forall|i: int| 0 <= i < r@.len() ==> (#[trigger] r@[i]).vector@.len() == old(
                self,
            ).dim(),
    {
        proof {
            use_type_invariant(&*self);
        }
        if self.eigen.is_none() {
            proof {
                assert forall|i: int|
                    0 <= i < self.ham@.len() implies (#[trigger] self.ham@[i])@.len()
                    == self.ham@.len() by {
                    assert(mat_of(self.ham@)[i] == self.ham@[i]@);
                }
            }
            let (vals, vecs) = eigen_decompose(&self.ham);
            let pairs = zip_pairs_exec(&vals, &vecs);
            let sorted = sort_pairs(pairs);
            proof {
                lemma_sort_pairs_len(pairs_view(pairs@));
                assert forall|i: int| 0 <= i < pairs_view(pairs@).len() implies (
                #[trigger] pairs_view(pairs@)[i]).1.len() == self.dim() by {
                    assert(mat_of(vecs@)[i] == vecs@[i]@);
                }
                lemma_sort_pairs_elem_len(pairs_view(pairs@), self.dim());
                assert forall|i: int| 0 <= i < sorted@.len() implies (#[trigger] sorted@[i])
                    .vector@.len() == self.dim() by {
                    assert(pairs_view(sorted@)[i] == pair_view(sorted@[i]));
                }
            }
            self.eigen = Some(sorted);
        }
        match &self.eigen {
            Some(p) => {
                proof {
                    use_type_invariant(&*self);
                }
                let r = copy_pairs(p);
                proof {
                    assert(pairs_view(r@).len() == r@.len());
                    assert(pairs_view(p@).len() == p@.len());
                    assert(r@.len() == p@.len());
                    assert(self.dim() == old(self).dim());
                    assert forall|i: int|
                        0 <= i < r@.len() implies (#[trigger] r@[i]).vector@.len() == old(
                        self,
                    ).dim() by {
                        assert(pairs_view(r@)[i] == pair_view(r@[i]));
                        assert(pairs_view(p@)[i] == pair_view(p@[i]));
                        assert(p@[i].vector@.len() == self.dim());
                    }
                }
                r
            },
            None => {
                proof {
                    assert(false);
                }
                Vec::new()
            },
        }
    }
}

impl Clone for System {
    /// A copy with the same Hamiltonian and the same cache state.
    fn clone(&self) -> (r: Self)
        ensures
            r.ham_view() == self.ham_view(),
            r.eigen_view() == self.eigen_view(),
            r.dim() == self.dim(),
    {
        proof {
            use_type_invariant(self);
        }
        let mut ham: Vec<Vec<Amp>> = Vec::new();
        let mut i: usize = 0;
        while i < self.ham.len()
            invariant
                i <= self.ham@.len(),
                ham@.len() == i,
                forall|k: int| 0 <= k < i ==> (#[trigger] ham@[k])@ == self.ham@[k]@,
            decreases self.ham@.len() - i,
        {
            ham.push(copy_amps(&self.ham[i]));
            i = i + 1;
        }
        proof {
            assert(mat_of(ham@) =~= mat_of(self.ham@));
        }
        match &self.eigen {
            Some(p) => {
                let q = copy_pairs(p);
                proof {
                    assert(pairs_view(q@).len() == q@.len());
                    assert(pairs_view(p@).len() == p@.len());
                    assert forall|k: int|
                        0 <= k < q@.len() implies (#[trigger] q@[k]).vector@.len() == self.dim() by {
                        assert(pairs_view(q@)[k] == pair_view(q@[k]));
                        assert(pairs_view(p@)[k] == pair_view(p@[k]));
                        assert(p@[k].vector@.len() == self.dim());
                    }
                }
                System { ham, eigen: Some(q) }
            },
            None => System { ham, eigen: None },
        }
    }
}

} // verus!
