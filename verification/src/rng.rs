//! Random draws for construction and mutation.
//!
//! Randomness comes from the `rand` crate. Nothing is promised of a random
//! value beyond its range, so every contract here states only what holds of
//! every possible outcome.

use vstd::prelude::*;
use crate::arith::{mul_of, sub_of, sub_bits, mul_bits, ONE_BITS, TWO_BITS, TENTH_BITS, FIFTH_BITS};

verus! {

pub assume_specification<T>[ rand::random::<T> ]() -> (r: T)
    where
        rand::distributions::Standard: rand::distributions::Distribution<T>,
;

/// Relies on `rand::Rng::gen_range` over `rand::thread_rng`: a uniformly
/// random index strictly below the bound; the range is not empty, so the
/// call does not panic, and nothing more is promised of a random draw.
#[verifier::external_body]
pub(crate) fn random_index(n: usize) -> (r: usize)
    requires
        n > 0,
    ensures
        r < n,
{
    rand::Rng::gen_range(&mut rand::thread_rng(), 0..n)
}

/// The bit pattern of one plus a fifty-two bit mantissa taken from the top
/// of a raw random word: a double in the half-open interval from one to two.
pub open spec fn unit_bits(raw: u64) -> u64 {
    ONE_BITS | (raw >> 12)
}

/// The uniform sample in the half-open unit interval that a raw random word
/// yields: the sample in the interval from one to two, minus one.
pub open spec fn fraction_of(raw: u64) -> u64 {
    sub_of(unit_bits(raw), ONE_BITS)
}

/// The connection weight a raw random word yields: twice the unit-interval
/// sample minus one, uniform over the half-open interval from minus one to
/// one.
pub open spec fn weight_of(raw: u64) -> u64 {
    sub_of(mul_of(fraction_of(raw), TWO_BITS), ONE_BITS)
}

/// The weight perturbation a raw random word yields: a fifth of the
/// unit-interval sample minus one tenth, uniform over the half-open interval
/// from minus one tenth to one tenth.
pub open spec fn delta_of(raw: u64) -> u64 {
    sub_of(mul_of(fraction_of(raw), FIFTH_BITS), TENTH_BITS)
}

/// Draws a fresh connection weight, uniform over the half-open interval from
/// minus one to one.
pub fn random_weight() -> (w: u64)
    ensures
        exists|raw: u64| w == weight_of(raw),
{
    let raw: u64 = rand::random::<u64>();
    let unit = ONE_BITS | (raw >> 12);
    let fraction = sub_bits(unit, ONE_BITS);
    let w = sub_bits(mul_bits(fraction, TWO_BITS), ONE_BITS);
    proof {
        assert(w == weight_of(raw));
    }
    w
}

/// Draws a weight perturbation, uniform over the half-open interval from
/// minus one tenth to one tenth.
pub fn random_delta() -> (d: u64)
    ensures
        exists|raw: u64| d == delta_of(raw),
{
    let raw: u64 = rand::random::<u64>();
    let unit = ONE_BITS | (raw >> 12);
    let fraction = sub_bits(unit, ONE_BITS);
    let d = sub_bits(mul_bits(fraction, FIFTH_BITS), TENTH_BITS);
    proof {
        assert(d == delta_of(raw));
    }
    d
}

/// Draws one of `n` equally likely operator numbers.
pub fn random_operator(n: u32) -> (r: u32)
    requires
        n > 0,
    ensures
        r < n,
{
    let raw: u32 = rand::random::<u32>();
    raw % n
}

} // verus!
