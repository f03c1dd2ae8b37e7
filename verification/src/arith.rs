//! Double-precision arithmetic on raw bit patterns.
//!
//! The genome carries every numeric value as the bit pattern of an IEEE-754
//! double, held in a `u64`. The arithmetic itself is done by the
//! `rustc_apfloat` software implementation of IEEE-754, which is a pure
//! function of the operand bits, so each operation can be named by an
//! uninterpreted spec function and trusted to return that name's value.

use vstd::prelude::*;
use rustc_apfloat::Float;

verus! {

/// The bit pattern of the double value positive zero.
pub const ZERO_BITS: u64 = 0;

/// The bit pattern of the double value one half.
pub const HALF_BITS: u64 = 0x3FE0_0000_0000_0000;

/// The bit pattern of the double value one.
pub const ONE_BITS: u64 = 0x3FF0_0000_0000_0000;

/// The bit pattern of the double value two.
pub const TWO_BITS: u64 = 0x4000_0000_0000_0000;

/// The bit pattern of the double value one tenth.
pub const TENTH_BITS: u64 = 0x3FB9_9999_9999_999A;

/// The bit pattern of the double value one fifth.
pub const FIFTH_BITS: u64 = 0x3FC9_9999_9999_999A;

/// The bit pattern of the small positive double that the fitness formula
/// adds to the total error before dividing, so that a perfect genome gets a
/// large finite fitness instead of a division by zero.
pub const EPSILON_BITS: u64 = 0x3C32_725D_D1D2_43AC;

/// The sum that IEEE-754 double addition (round to nearest, ties to even)
/// returns for the operands with these bit patterns.
pub uninterp spec fn add_of(a: u64, b: u64) -> u64;

/// The product that IEEE-754 double multiplication (round to nearest, ties
/// to even) returns for the operands with these bit patterns.
pub uninterp spec fn mul_of(a: u64, b: u64) -> u64;

/// The quotient that IEEE-754 double division (round to nearest, ties to
/// even) returns for the operands with these bit patterns.
pub uninterp spec fn div_of(a: u64, b: u64) -> u64;

/// Whether IEEE-754 ordered comparison holds the double with bit pattern `a`
/// strictly greater than the one with bit pattern `b`; false whenever either
/// operand is a NaN.
pub uninterp spec fn gt_of(a: u64, b: u64) -> bool;

/// Negating a double flips its sign bit and changes nothing else.
pub open spec fn neg_bits(x: u64) -> u64 {
    x ^ 0x8000_0000_0000_0000
}

/// The magnitude of a double clears its sign bit and changes nothing else.
pub open spec fn abs_bits(x: u64) -> u64 {
    x & 0x7FFF_FFFF_FFFF_FFFF
}

/// Subtraction is addition of the negation, as IEEE-754 defines it.
pub open spec fn sub_of(a: u64, b: u64) -> u64 {
    add_of(a, neg_bits(b))
}

/// Relies on `rustc_apfloat::ieee::Double::add_r`: IEEE-754 double addition,
/// round to nearest with ties to even, a function of the operand bits alone.
#[verifier::external_body]
pub(crate) fn add_bits(a: u64, b: u64) -> (r: u64)
    ensures
        r == add_of(a, b),
{
    let x = rustc_apfloat::ieee::Double::from_bits(a as u128);
    let y = rustc_apfloat::ieee::Double::from_bits(b as u128);
    x.add_r(y, rustc_apfloat::Round::NearestTiesToEven).value.to_bits() as u64
}

/// Relies on `rustc_apfloat::ieee::Double::mul_r`: IEEE-754 double
/// multiplication, round to nearest with ties to even, a function of the
/// operand bits alone.
#[verifier::external_body]
pub(crate) fn mul_bits(a: u64, b: u64) -> (r: u64)
    ensures
        r == mul_of(a, b),
{
    let x = rustc_apfloat::ieee::Double::from_bits(a as u128);
    let y = rustc_apfloat::ieee::Double::from_bits(b as u128);
    x.mul_r(y, rustc_apfloat::Round::NearestTiesToEven).value.to_bits() as u64
}

/// Relies on `rustc_apfloat::ieee::Double::div_r`: IEEE-754 double division,
/// round to nearest with ties to even, a function of the operand bits alone.
#[verifier::external_body]
pub(crate) fn div_bits(a: u64, b: u64) -> (r: u64)
    ensures
        r == div_of(a, b),
{
    let x = rustc_apfloat::ieee::Double::from_bits(a as u128);
    let y = rustc_apfloat::ieee::Double::from_bits(b as u128);
    x.div_r(y, rustc_apfloat::Round::NearestTiesToEven).value.to_bits() as u64
}

/// Relies on `PartialOrd` for `rustc_apfloat::ieee::Double`: IEEE-754
/// ordered greater-than, false on NaN, a function of the operand bits alone.
#[verifier::external_body]
pub(crate) fn gt_bits(a: u64, b: u64) -> (r: bool)
    ensures
        r == gt_of(a, b),
{
    rustc_apfloat::ieee::Double::from_bits(a as u128) > rustc_apfloat::ieee::Double::from_bits(b as u128)
}

/// Flips the sign bit: IEEE-754 double negation.
pub fn negate_bits(x: u64) -> (r: u64)
    ensures
        r == neg_bits(x),
{
    x ^ 0x8000_0000_0000_0000
}

/// Clears the sign bit: the magnitude of an IEEE-754 double.
pub fn magnitude_bits(x: u64) -> (r: u64)
    ensures
        r == abs_bits(x),
{
    x & 0x7FFF_FFFF_FFFF_FFFF
}

/// Subtracts by adding the negation.
pub fn sub_bits(a: u64, b: u64) -> (r: u64)
    ensures
        r == sub_of(a, b),
{
    add_bits(a, negate_bits(b))
}

/// The activation value of a node: the algebraic sigmoid
/// half plus half times x over (one plus the magnitude of x),
/// which maps every finite double into the open unit interval.
pub open spec fn activation_of(x: u64) -> u64 {
    add_of(HALF_BITS, mul_of(HALF_BITS, div_of(x, add_of(ONE_BITS, abs_bits(x)))))
}

/// Applies the activation function to an accumulated sum.
pub fn activation(x: u64) -> (r: u64)
    ensures
        r == activation_of(x),
{
    let denominator = add_bits(ONE_BITS, magnitude_bits(x));
    let slope = div_bits(x, denominator);
    add_bits(HALF_BITS, mul_bits(HALF_BITS, slope))
}

} // verus!
