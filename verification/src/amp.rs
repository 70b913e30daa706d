//! Complex amplitudes and their arithmetic.
//!
//! An amplitude is a complex number whose real and imaginary parts are
//! carried as IEEE-754 bit patterns (see [`crate::fp`]).  The complex
//! operations are built here, in verified code, from the named scalar
//! primitives: each executable operation is pinned by its contract to the
//! exact formula it computes.

use vstd::prelude::*;

use crate::fp::{
    add_bits, add_of, cos_bits, cos_of, div_bits, div_of, is_zero_bits, mul_bits, mul_of, neg_bits,
    neg_of, sin_bits, sin_of, zero_bits,
};

verus! {

/// A complex amplitude: the IEEE-754 bit patterns of its real and imaginary
/// parts.
#[derive(Clone, Copy, Debug, PartialEq, Eq, Structural)]
pub struct Amp {
    pub re: u64,
    pub im: u64,
}

/// The amplitude `0 + 0i` (both parts positive zero).
pub open spec fn amp_zero() -> Amp {
    Amp { re: 0, im: 0 }
}

/// The complex conjugate: the imaginary part's sign is flipped.
pub open spec fn conj_of(a: Amp) -> Amp {
    Amp { re: a.re, im: neg_of(a.im) }
}

/// The complex sum, taken part by part.
pub open spec fn amp_add_of(a: Amp, b: Amp) -> Amp {
    Amp { re: add_of(a.re, b.re), im: add_of(a.im, b.im) }
}

/// The complex product `(a.re + a.im i)(b.re + b.im i)`, with each real
/// operation an IEEE-754 primitive and subtraction written as the addition
/// of a negation (in IEEE-754 the two are the same operation).
pub open spec fn amp_mul_of(a: Amp, b: Amp) -> Amp {
    Amp {
        re: add_of(mul_of(a.re, b.re), neg_of(mul_of(a.im, b.im))),
        im: add_of(mul_of(a.re, b.im), mul_of(a.im, b.re)),
    }
}

/// The amplitude divided by the real scalar `d`, part by part.
pub open spec fn amp_div_real_of(a: Amp, d: u64) -> Amp {
    Amp { re: div_of(a.re, d), im: div_of(a.im, d) }
}

/// The squared magnitude `re^2 + im^2` of the amplitude (the Born-rule
/// probability weight).
pub open spec fn prob_of(a: Amp) -> u64 {
    add_of(mul_of(a.re, a.re), mul_of(a.im, a.im))
}

/// The phase factor `exp(-i * lam * t) = cos(lam t) - i sin(lam t)`, for
/// real `lam` and `t`.
pub open spec fn phase_of(lam: u64, t: u64) -> Amp {
    Amp { re: cos_of(mul_of(lam, t)), im: neg_of(sin_of(mul_of(lam, t))) }
}

/// Whether both parts of the amplitude are IEEE-754 zeros.
pub open spec fn amp_is_zero(a: Amp) -> bool {
    is_zero_bits(a.re) && is_zero_bits(a.im)
}

/// Complex conjugation, a pure bit operation.
pub fn amp_conj(a: Amp) -> (r: Amp)
    ensures
        r == conj_of(a),
{
    Amp { re: a.re, im: neg_bits(a.im) }
}

/// Complex addition.
pub fn amp_add(a: Amp, b: Amp) -> (r: Amp)
    ensures
        r == amp_add_of(a, b),
{
    Amp { re: add_bits(a.re, b.re), im: add_bits(a.im, b.im) }
}

/// Complex multiplication.
pub fn amp_mul(a: Amp, b: Amp) -> (r: Amp)
    ensures
        r == amp_mul_of(a, b),
{
    let rr = mul_bits(a.re, b.re);
    let ii = mul_bits(a.im, b.im);
    let ri = mul_bits(a.re, b.im);
    let ir = mul_bits(a.im, b.re);
    Amp { re: add_bits(rr, neg_bits(ii)), im: add_bits(ri, ir) }
}

/// Division of an amplitude by a real scalar.
pub fn amp_div_real(a: Amp, d: u64) -> (r: Amp)
    ensures
        r == amp_div_real_of(a, d),
{
    Amp { re: div_bits(a.re, d), im: div_bits(a.im, d) }
}

/// The squared magnitude of an amplitude.
pub fn amp_prob(a: Amp) -> (r: u64)
    ensures
        r == prob_of(a),
{
    add_bits(mul_bits(a.re, a.re), mul_bits(a.im, a.im))
}

/// The evolution phase factor `exp(-i * lam * t)`.
pub fn amp_phase(lam: u64, t: u64) -> (r: Amp)
    ensures
        r == phase_of(lam, t),
{
    let angle = mul_bits(lam, t);
    Amp { re: cos_bits(angle), im: neg_bits(sin_bits(angle)) }
}

/// Whether the amplitude is exactly zero.
pub fn amp_zero_test(a: Amp) -> (r: bool)
    ensures
        r == amp_is_zero(a),
{
    zero_bits(a.re) && zero_bits(a.im)
}

} // verus!
