//! Bras and kets: tagged row or column vectors of amplitudes.

use vstd::prelude::*;

use crate::amp::Amp;
use crate::linalg::copy_amps;

verus! {

/// A state vector together with its duality tag: a `Bra` is a row vector,
/// the conjugate-transpose dual of the column-vector `Ket`.
#[derive(Debug)]
pub enum Braket {
    Bra(Vec<Amp>),
    Ket(Vec<Amp>),
}

impl Braket {
    /// The amplitudes, whichever way the vector is oriented.
    pub open spec fn amps(self) -> Seq<Amp> {
        match self {
            Braket::Bra(v) => v@,
            Braket::Ket(v) => v@,
        }
    }

    /// Whether this is a bra (row) vector.
    pub open spec fn is_bra_spec(self) -> bool {
        self is Bra
    }

    /// Exact equality: the same tag and bitwise the same amplitudes.  A bra
    /// and a ket of equal numeric content are unequal.
    pub open spec fn same_value(self, other: Braket) -> bool {
        self.is_bra_spec() == other.is_bra_spec() && self.amps() == other.amps()
    }

    /// The vector's dimension.
    pub fn len(&self) -> (n: usize)
        ensures
            n == self.amps().len(),
    {
        match self {
            Braket::Bra(v) => v.len(),
            Braket::Ket(v) => v.len(),
        }
    }

}

impl Clone for Braket {
    /// A copy with the same tag and the same amplitudes.
    fn clone(&self) -> (r: Self)
        ensures
            r.same_value(*self),
    {
        match self {
            Braket::Bra(v) => Braket::Bra(copy_amps(v)),
            Braket::Ket(v) => Braket::Ket(copy_amps(v)),
        }
    }
}

/// Bitwise equality of two amplitude vectors.
pub(crate) fn amps_eq(u: &Vec<Amp>, v: &Vec<Amp>) -> (r: bool)
    ensures
        r == (u@ == v@),
{
    if u.len() != v.len() {
        return false;
    }
    let mut j: usize = 0;
    while j < u.len()
        invariant
            j <= u@.len(),
            u@.len() == v@.len(),
            forall|i: int| 0 <= i < j ==> u@[i] == v@[i],
        decreases u@.len() - j,
    {
        let same = u[j] == v[j];
        if !same {
            return false;
        }
        j = j + 1;
    }
    proof {
        assert(u@ =~= v@);
    }
    true
}

impl PartialEq for Braket {
    /// Exact, tag-sensitive equality.
    fn eq(&self, other: &Self) -> (r: bool) {
        match (self, other) {
            (Braket::Bra(u), Braket::Bra(v)) => amps_eq(u, v),
            (Braket::Ket(u), Braket::Ket(v)) => amps_eq(u, v),
            _ => false,
        }
    }
}

impl vstd::std_specs::cmp::PartialEqSpecImpl for Braket {
    open spec fn obeys_eq_spec() -> bool {
        true
    }

    open spec fn eq_spec(&self, other: &Braket) -> bool {
        self.same_value(*other)
    }
}

} // verus!
