//! Double-precision scalar arithmetic over IEEE-754 bit patterns.
//!
//! Verified code in this crate never holds a floating-point value: every
//! scalar is carried as the `u64` bit pattern of the IEEE-754 double it
//! stands for.  The arithmetic on those doubles is delegated to the
//! hardware through the small trusted wrappers below; each wrapper's result
//! is named by an uninterpreted spec function, so contracts can pin a
//! computation down to an exact combination of these primitives without
//! claiming anything about the numeric values themselves.
//!
//! Inside the wrappers, `bytemuck::cast` reinterprets a `u64` as the double
//! with that bit pattern and back, and `num`'s `Complex64` serves only to
//! give the operands their type; the arithmetic itself is the hardware's.
//!
//! Two operations need no trust at all, because IEEE-754 defines them as
//! pure bit manipulations: negation flips the sign bit, and the magnitude
//! test masks it away.

use vstd::prelude::*;

verus! {

/// Sign bit of an IEEE-754 double.
pub const SIGN_MASK: u64 = 0x8000_0000_0000_0000;

/// All bits of an IEEE-754 double except the sign.
pub const ABS_MASK: u64 = 0x7fff_ffff_ffff_ffff;

/// The IEEE-754 sum of the doubles with bit patterns `a` and `b`.
pub uninterp spec fn add_of(a: u64, b: u64) -> u64;

/// The IEEE-754 product of the doubles with bit patterns `a` and `b`.
pub uninterp spec fn mul_of(a: u64, b: u64) -> u64;

/// The IEEE-754 quotient of the doubles with bit patterns `a` and `b`.
pub uninterp spec fn div_of(a: u64, b: u64) -> u64;

/// The IEEE-754 square root of the double with bit pattern `a`.
pub uninterp spec fn sqrt_of(a: u64) -> u64;

/// The cosine of the double with bit pattern `a`.
pub uninterp spec fn cos_of(a: u64) -> u64;

/// The sine of the double with bit pattern `a`.
pub uninterp spec fn sin_of(a: u64) -> u64;

/// The IEEE-754 negation of `b`: the same double with its sign bit flipped.
pub open spec fn neg_of(b: u64) -> u64 {
    b ^ SIGN_MASK
}

/// Whether `b` is a (positive or negative) IEEE-754 zero.
pub open spec fn is_zero_bits(b: u64) -> bool {
    b & ABS_MASK == 0
}

/// Negates a double without arithmetic: IEEE-754 negation is exactly a flip
/// of the sign bit.
pub(crate) fn neg_bits(b: u64) -> (r: u64)
    ensures
        r == neg_of(b),
{
    b ^ SIGN_MASK
}

/// Tests for a positive or negative zero without arithmetic, by masking the
/// sign bit away.
pub(crate) fn zero_bits(b: u64) -> (r: bool)
    ensures
        r == is_zero_bits(b),
{
    b & ABS_MASK == 0
}

/// Relies on `f64`'s `+` operator (IEEE-754 addition).  `Complex64::new`
/// only serves to give the two raw bit patterns their double type.
#[verifier::external_body]
pub(crate) fn add_bits(a: u64, b: u64) -> (r: u64)
    ensures
        r == add_of(a, b),
{
    let x = num::complex::Complex64::new(bytemuck::cast(a), bytemuck::cast(b));
    bytemuck::cast(x.re + x.im)
}

/// Relies on `f64`'s `*` operator (IEEE-754 multiplication).  `Complex64::new`
/// only serves to give the two raw bit patterns their double type.
#[verifier::external_body]
pub(crate) fn mul_bits(a: u64, b: u64) -> (r: u64)
    ensures
        r == mul_of(a, b),
{
    let x = num::complex::Complex64::new(bytemuck::cast(a), bytemuck::cast(b));
    bytemuck::cast(x.re * x.im)
}

/// Relies on `f64`'s `/` operator (IEEE-754 division; a zero divisor yields
/// an infinity or NaN, never a panic).  `Complex64::new` only serves to give
/// the two raw bit patterns their double type.
#[verifier::external_body]
pub(crate) fn div_bits(a: u64, b: u64) -> (r: u64)
    ensures
        r == div_of(a, b),
{
    let x = num::complex::Complex64::new(bytemuck::cast(a), bytemuck::cast(b));
    bytemuck::cast(x.re / x.im)
}

/// Relies on `f64::sqrt` (NaN for negative input, never a panic).
/// `Complex64::new` only serves to give the raw bit pattern its double type.
#[verifier::external_body]
pub(crate) fn sqrt_bits(a: u64) -> (r: u64)
    ensures
        r == sqrt_of(a),
{
    let x = num::complex::Complex64::new(bytemuck::cast(a), bytemuck::cast(0u64));
    bytemuck::cast(x.re.sqrt())
}

/// Relies on `f64::cos`.  `Complex64::new` only serves to give the raw bit
/// pattern its double type.
#[verifier::external_body]
pub(crate) fn cos_bits(a: u64) -> (r: u64)
    ensures
        r == cos_of(a),
{
    let x = num::complex::Complex64::new(bytemuck::cast(a), bytemuck::cast(0u64));
    bytemuck::cast(x.re.cos())
}

/// Relies on `f64::sin`.  `Complex64::new` only serves to give the raw bit
/// pattern its double type.
#[verifier::external_body]
pub(crate) fn sin_bits(a: u64) -> (r: u64)
    ensures
        r == sin_of(a),
{
    let x = num::complex::Complex64::new(bytemuck::cast(a), bytemuck::cast(0u64));
    bytemuck::cast(x.re.sin())
}

} // verus!
