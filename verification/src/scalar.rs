//! Fixed-point numbers: the scalars of the renderer.

use crate::arith::{
    abs, div_toward_zero, isqrt, magnitude, rescale, rescaled_difference, rescaled_product,
    saturate, saturating_raw, scaled_quotient, scaled_root, MAX_RAW, ONE_RAW,
};
use vstd::prelude::*;

verus! {

/// A signed fixed-point number with 32 fractional bits: `raw / 2^32`.
///
/// Every operation computes the exact result, rounds it toward zero to a
/// multiple of `2^-32` and saturates it to `[-MAX_RAW, MAX_RAW]`.
#[derive(Clone, Copy, Debug, PartialEq, Eq, Structural, PartialOrd, Ord)]
pub struct Scalar {
    pub raw: i64,
}

impl View for Scalar {
    type V = int;

    /// The raw value as a mathematical integer.
    open spec fn view(&self) -> int {
        self.raw as int
    }
}

impl Scalar {
    /// The scalar with raw value `raw`, which must fit in 64 bits.
    pub open spec fn of(raw: int) -> Scalar
        recommends
            i64::MIN <= raw <= i64::MAX,
    {
        Scalar { raw: raw as i64 }
    }

    /// Saturating sum.
    pub open spec fn plus(self, rhs: Scalar) -> Scalar {
        Scalar::of(saturate(self@ + rhs@))
    }

    /// Saturating difference.
    pub open spec fn minus(self, rhs: Scalar) -> Scalar {
        Scalar::of(saturate(self@ - rhs@))
    }

    /// Product, rounded toward zero and saturated.
    pub open spec fn times(self, rhs: Scalar) -> Scalar {
        Scalar::of(rescale(self@ * rhs@))
    }

    /// Quotient by a non-zero scalar, rounded toward zero and saturated.
    pub open spec fn over(self, rhs: Scalar) -> Scalar
        recommends
            rhs@ != 0,
    {
        Scalar::of(saturate(div_toward_zero(self@ * ONE_RAW, rhs@)))
    }

    /// Saturating negation.
    pub open spec fn negated(self) -> Scalar {
        Scalar::of(saturate(-self@))
    }

    /// Square root, for a non-negative scalar.
    pub open spec fn sqrt_spec(self) -> Scalar
        recommends
            self@ >= 0,
    {
        Scalar::of(isqrt(self@ * ONE_RAW))
    }

    /// Absolute value.
    pub open spec fn abs_spec(self) -> Scalar {
        Scalar::of(saturate(abs(self@)))
    }

    /// The difference of products `a * b - c * d`, rounded once.
    pub open spec fn mul_sub_spec(a: Scalar, b: Scalar, c: Scalar, d: Scalar) -> Scalar {
        Scalar::of(rescale(a@ * b@ - c@ * d@))
    }

    /// The number zero.
    pub fn zero() -> (r: Scalar)
        ensures
            r@ == 0,
    {
        Scalar { raw: 0 }
    }

    /// The number one.
    pub fn one() -> (r: Scalar)
        ensures
            r@ == ONE_RAW,
    {
        Scalar { raw: ONE_RAW }
    }

    /// The largest scalar, which stands for an unbounded distance.
    pub fn max_value() -> (r: Scalar)
        ensures
            r@ == MAX_RAW,
    {
        Scalar { raw: MAX_RAW }
    }

    /// The whole number `n`.
    pub fn from_int(n: i32) -> (r: Scalar)
        ensures
            r@ == n * ONE_RAW,
    {
        Scalar { raw: (n as i64) * ONE_RAW }
    }

    /// The fraction `num / den`, rounded toward zero and saturated.
    pub fn from_ratio(num: i32, den: i32) -> (r: Scalar)
        requires
            den != 0,
        ensures
            r@ == saturate(div_toward_zero(num * ONE_RAW, den as int)),
    {
        let scaled: i64 = (num as i64) * ONE_RAW;
        let negative = (num < 0) != (den < 0);
        let q: u64 = magnitude(scaled) / magnitude(den as i64);
        Scalar { raw: saturating_raw(negative, q as u128) }
    }

    /// Square root, rounded down.
    pub fn sqrt(self) -> (r: Scalar)
        requires
            self@ >= 0,
        ensures
            r == self.sqrt_spec(),
    {
        Scalar { raw: scaled_root(self.raw) }
    }

    /// Absolute value.
    pub fn abs(self) -> (r: Scalar)
        ensures
            r == self.abs_spec(),
    {
        Scalar { raw: saturating_raw(false, magnitude(self.raw) as u128) }
    }

    /// The difference of products `a * b - c * d`, rounded once.
    pub fn mul_sub(a: Scalar, b: Scalar, c: Scalar, d: Scalar) -> (r: Scalar)
        ensures
            r == Scalar::mul_sub_spec(a, b, c, d),
    {
        Scalar { raw: rescaled_difference(a.raw, b.raw, c.raw, d.raw) }
    }
}

impl core::ops::Add for Scalar {
    type Output = Scalar;

    /// Saturating sum.
    fn add(self, rhs: Scalar) -> (r: Scalar)
        ensures
            r == self.plus(rhs),
    {
        let s: i128 = self.raw as i128 + rhs.raw as i128;
        if s >= 0 {
            Scalar { raw: saturating_raw(false, s as u128) }
        } else {
            Scalar { raw: saturating_raw(true, (-s) as u128) }
        }
    }
}

impl vstd::std_specs::ops::AddSpecImpl for Scalar {
    open spec fn obeys_add_spec() -> bool {
        true
    }

    open spec fn add_req(self, rhs: Scalar) -> bool {
        true
    }

    open spec fn add_spec(self, rhs: Scalar) -> Scalar {
        self.plus(rhs)
    }
}

impl core::ops::Sub for Scalar {
    type Output = Scalar;

    /// Saturating difference.
    fn sub(self, rhs: Scalar) -> (r: Scalar)
        ensures
            r == self.minus(rhs),
    {
        let s: i128 = self.raw as i128 - rhs.raw as i128;
        if s >= 0 {
            Scalar { raw: saturating_raw(false, s as u128) }
        } else {
            Scalar { raw: saturating_raw(true, (-s) as u128) }
        }
    }
}

impl vstd::std_specs::ops::SubSpecImpl for Scalar {
    open spec fn obeys_sub_spec() -> bool {
        true
    }

    open spec fn sub_req(self, rhs: Scalar) -> bool {
        true
    }

    open spec fn sub_spec(self, rhs: Scalar) -> Scalar {
        self.minus(rhs)
    }
}

impl core::ops::Mul for Scalar {
    type Output = Scalar;

    /// Product, rounded toward zero and saturated.
    fn mul(self, rhs: Scalar) -> (r: Scalar)
        ensures
            r == self.times(rhs),
    {
        Scalar { raw: rescaled_product(self.raw, rhs.raw) }
    }
}

impl vstd::std_specs::ops::MulSpecImpl for Scalar {
    open spec fn obeys_mul_spec() -> bool {
        true
    }

    open spec fn mul_req(self, rhs: Scalar) -> bool {
        true
    }

    open spec fn mul_spec(self, rhs: Scalar) -> Scalar {
        self.times(rhs)
    }
}

impl core::ops::Div for Scalar {
    type Output = Scalar;

    /// Quotient by a non-zero scalar, rounded toward zero and saturated.
    fn div(self, rhs: Scalar) -> (r: Scalar)
        ensures
            r == self.over(rhs),
    {
        Scalar { raw: scaled_quotient(self.raw, rhs.raw) }
    }
}

impl vstd::std_specs::ops::DivSpecImpl for Scalar {
    open spec fn obeys_div_spec() -> bool {
        true
    }

    open spec fn div_req(self, rhs: Scalar) -> bool {
        rhs@ != 0
    }

    open spec fn div_spec(self, rhs: Scalar) -> Scalar {
        self.over(rhs)
    }
}

impl core::ops::Neg for Scalar {
    type Output = Scalar;

    /// Saturating negation.
    fn neg(self) -> (r: Scalar)
        ensures
            r == self.negated(),
    {
        Scalar { raw: saturating_raw(self.raw >= 0, magnitude(self.raw) as u128) }
    }
}

impl vstd::std_specs::ops::NegSpecImpl for Scalar {
    open spec fn obeys_neg_spec() -> bool {
        true
    }

    open spec fn neg_req(self) -> bool {
        true
    }

    open spec fn neg_spec(self) -> Scalar {
        self.negated()
    }
}

} // verus!
