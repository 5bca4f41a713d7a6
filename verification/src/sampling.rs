//! Random scalars, drawn from the thread-local generator of `rand`.

use crate::arith::{saturate, ONE_RAW};
use crate::scalar::Scalar;
use vstd::prelude::*;

verus! {

/// Thirty-two fresh random bits from `rand::random`.
///
/// Nothing is claimed of the value: it is whatever the thread-local
/// generator yields next. The call panics only where the operating system
/// cannot seed or reseed that generator.
#[verifier::external_body]
pub(crate) fn random_bits() -> (bits: u32) {
    rand::random::<u32>()
}

/// The number in `[0, 1)` that the 24 most significant of `bits` encode:
/// `(bits / 2^8) / 2^24`.
///
/// This is the single-precision sample of `[0, 1)` that `rand` makes of 32
/// random bits. Being a multiple of `2^-24`, it is a scalar without
/// rounding.
pub open spec fn fraction_spec(bits: u32) -> Scalar {
    Scalar::of((bits / 256) * 256)
}

/// `min + (max - min) * f`: the point at fraction `f` of the way from `min`
/// to `max`.
pub open spec fn lerp_spec(min: Scalar, max: Scalar, f: Scalar) -> Scalar {
    min.plus(max.minus(min).times(f))
}

/// The number in `[0, 1)` that the 24 most significant of `bits` encode.
pub fn fraction(bits: u32) -> (f: Scalar)
    ensures
        f == fraction_spec(bits),
        0 <= f@ < ONE_RAW,
{
    Scalar { raw: ((bits / 256) as i64) * 256 }
}

/// A point at a fraction between zero and one of the way from `min` to a
/// `max` that is not below it lies between the two, saturated.
pub proof fn lemma_lerp_between(min: Scalar, max: Scalar, f: Scalar)
    requires
        min@ <= max@,
        0 <= f@ <= ONE_RAW,
    ensures
        saturate(min@) <= lerp_spec(min, max, f)@ <= saturate(max@),
{
    let span = max.minus(min)@;
    let one = ONE_RAW as int;
    assert(0 <= span <= max@ - min@);
    let p = span * f@;
    assert(0 <= p <= span * one) by (nonlinear_arith)
        requires
            p == span * f@,
            0 <= span,
            0 <= f@ <= one,
    ;
    assert(p / one <= span) by {
        vstd::arithmetic::div_mod::lemma_div_is_ordered(p, span * one, one);
        vstd::arithmetic::div_mod::lemma_div_by_multiple(span, one);
    }
    assert(0 <= p / one) by {
        vstd::arithmetic::div_mod::lemma_div_pos_is_pos(p, one);
    }
    let q = max.minus(min).times(f)@;
    assert(q == p / one);
    assert(min.plus(max.minus(min).times(f))@ == saturate(min@ + q));
}

/// The point at fraction `f` of the way from `min` to `max`.
pub fn lerp(min: Scalar, max: Scalar, f: Scalar) -> (r: Scalar)
    ensures
        r == lerp_spec(min, max, f),
{
    min + (max - min) * f
}

/// A random number in `[0, 1)`, a multiple of `2^-24`.
pub fn random_fraction() -> (f: Scalar)
    ensures
        exists|bits: u32| f == fraction_spec(bits),
        0 <= f@ < ONE_RAW,
{
    let bits = random_bits();
    fraction(bits)
}

/// A random number between `min` and `max`.
pub fn random_double(min: Scalar, max: Scalar) -> (r: Scalar)
    ensures
        exists|bits: u32| r == lerp_spec(min, max, fraction_spec(bits)),
        min@ <= max@ ==> saturate(min@) <= r@ <= saturate(max@),
{
    let f = random_fraction();
    proof {
        if min@ <= max@ {
            lemma_lerp_between(min, max, f);
        }
    }
    lerp(min, max, f)
}

} // verus!
