//! Three-component vectors, used as points, directions and colours.

use crate::arith::{abs, isqrt, norm3, rescale, rescaled_sum3, saturate, MAX_RAW, ONE_RAW};
use crate::vec3_laws::{
    lemma_in_hemisphere, lemma_normalized_in_unit_sphere, lemma_unit_vector_has_unit_length,
    lemma_zero_length,
};
use crate::sampling::{
    fraction, fraction_spec, lemma_lerp_between, lerp, lerp_spec, random_bits,
};
use crate::scalar::Scalar;
use core::ops::Neg;
use vstd::prelude::*;

verus! {

/// Raw value of the smallest scalar that is not below `10^-8`: a scalar is
/// smaller than `10^-8` exactly where its raw value is smaller than this.
pub const NEAR_ZERO_RAW: i64 = 43;

/// A vector of three fixed-point components.
#[derive(Clone, Copy, Debug, PartialEq, Eq, Structural)]
pub struct Vec3 {
    pub x: Scalar,
    pub y: Scalar,
    pub z: Scalar,
}

impl Vec3 {
    /// Component-wise sum.
    pub open spec fn plus(self, other: Vec3) -> Vec3 {
        Vec3 { x: self.x.plus(other.x), y: self.y.plus(other.y), z: self.z.plus(other.z) }
    }

    /// Component-wise difference.
    pub open spec fn minus(self, other: Vec3) -> Vec3 {
        Vec3 { x: self.x.minus(other.x), y: self.y.minus(other.y), z: self.z.minus(other.z) }
    }

    /// Component-wise product.
    pub open spec fn times(self, other: Vec3) -> Vec3 {
        Vec3 { x: self.x.times(other.x), y: self.y.times(other.y), z: self.z.times(other.z) }
    }

    /// Component-wise quotient by a vector without a zero component.
    pub open spec fn over(self, other: Vec3) -> Vec3
        recommends
            other.x@ != 0 && other.y@ != 0 && other.z@ != 0,
    {
        Vec3 { x: self.x.over(other.x), y: self.y.over(other.y), z: self.z.over(other.z) }
    }

    /// The vector scaled by `t`.
    pub open spec fn scaled(self, t: Scalar) -> Vec3 {
        Vec3 { x: self.x.times(t), y: self.y.times(t), z: self.z.times(t) }
    }

    /// The vector divided by the non-zero scalar `t`.
    pub open spec fn divided(self, t: Scalar) -> Vec3
        recommends
            t@ != 0,
    {
        Vec3 { x: self.x.over(t), y: self.y.over(t), z: self.z.over(t) }
    }

    /// The opposite vector.
    pub open spec fn negated(self) -> Vec3 {
        Vec3 { x: self.x.negated(), y: self.y.negated(), z: self.z.negated() }
    }

    /// Dot product: the exact sum of the three products, rounded once.
    pub open spec fn dot_spec(self, v2: Vec3) -> Scalar {
        Scalar::of(rescale(self.x@ * v2.x@ + self.y@ * v2.y@ + self.z@ * v2.z@))
    }

    /// Cross product: each component an exact difference of two products,
    /// rounded once.
    pub open spec fn cross_spec(self, v2: Vec3) -> Vec3 {
        Vec3 {
            x: Scalar::mul_sub_spec(self.y, v2.z, self.z, v2.y),
            y: Scalar::mul_sub_spec(self.z, v2.x, self.x, v2.z),
            z: Scalar::mul_sub_spec(self.x, v2.y, self.y, v2.x),
        }
    }

    /// Squared Euclidean length.
    pub open spec fn squared_length_spec(self) -> Scalar {
        self.dot_spec(self)
    }

    /// The exact sum of the squares of the raw components.
    pub open spec fn norm_square(self) -> int {
        self.x@ * self.x@ + self.y@ * self.y@ + self.z@ * self.z@
    }

    /// Euclidean length: the integer square root of the exact sum of squares,
    /// saturated.
    pub open spec fn length_spec(self) -> Scalar {
        Scalar::of(saturate(isqrt(self.norm_square())))
    }

    /// Whether the length is neither zero nor saturated.
    pub open spec fn has_length(self) -> bool {
        0 < self.norm_square() < (MAX_RAW + 1) * (MAX_RAW + 1)
    }

    /// Whether some component is smaller in magnitude than `10^-8`.
    pub open spec fn near_zero_spec(self) -> bool {
        ||| abs(self.x@) * 100_000_000 < ONE_RAW
        ||| abs(self.y@) * 100_000_000 < ONE_RAW
        ||| abs(self.z@) * 100_000_000 < ONE_RAW
    }

    /// Component `i`: first, second or third for `i` zero, one or two.
    pub open spec fn component(self, i: int) -> Scalar
        recommends
            0 <= i < 3,
    {
        if i == 0 {
            self.x
        } else if i == 1 {
            self.y
        } else {
            self.z
        }
    }

    /// The vector with component `i` replaced by `value`.
    pub open spec fn with_component(self, i: int, value: Scalar) -> Vec3
        recommends
            0 <= i < 3,
    {
        if i == 0 {
            Vec3 { x: value, ..self }
        } else if i == 1 {
            Vec3 { y: value, ..self }
        } else {
            Vec3 { z: value, ..self }
        }
    }

    /// Whether the vector lies strictly inside the sphere of radius one around
    /// the origin: its squared length is below one.
    pub open spec fn in_unit_sphere_spec(self) -> bool {
        self.squared_length_spec()@ < ONE_RAW
    }

    /// The zero vector, which also stands for black.
    pub open spec fn zero_spec() -> Vec3 {
        Vec3 { x: Scalar::of(0), y: Scalar::of(0), z: Scalar::of(0) }
    }

    /// The zero vector, which also stands for black.
    pub fn zero() -> (v: Vec3)
        ensures
            v == Vec3::zero_spec(),
    {
        Vec3 { x: Scalar::zero(), y: Scalar::zero(), z: Scalar::zero() }
    }

    /// Whether the vector lies strictly inside the unit sphere.
    pub fn in_unit_sphere(&self) -> (b: bool)
        ensures
            b == self.in_unit_sphere_spec(),
    {
        self.squared_length().raw < ONE_RAW
    }

    /// The vector with the given components.
    pub fn new(x: Scalar, y: Scalar, z: Scalar) -> (v: Vec3)
        ensures
            v == (Vec3 { x, y, z }),
    {
        Vec3 { x, y, z }
    }

    /// First component.
    pub fn x(&self) -> (r: Scalar)
        ensures
            r == self.x,
    {
        self.x
    }

    /// Second component.
    pub fn y(&self) -> (r: Scalar)
        ensures
            r == self.y,
    {
        self.y
    }

    /// Third component.
    pub fn z(&self) -> (r: Scalar)
        ensures
            r == self.z,
    {
        self.z
    }

    /// Red part of a colour: the first component.
    pub fn r(&self) -> (r: Scalar)
        ensures
            r == self.x,
    {
        self.x
    }

    /// Green part of a colour: the second component.
    pub fn g(&self) -> (r: Scalar)
        ensures
            r == self.y,
    {
        self.y
    }

    /// Blue part of a colour: the third component.
    pub fn b(&self) -> (r: Scalar)
        ensures
            r == self.z,
    {
        self.z
    }

    /// Euclidean length.
    pub fn length(&self) -> (r: Scalar)
        ensures
            r == self.length_spec(),
    {
        Scalar { raw: norm3(self.x.raw, self.y.raw, self.z.raw) }
    }

    /// Squared Euclidean length.
    pub fn squared_length(&self) -> (r: Scalar)
        ensures
            r == self.squared_length_spec(),
    {
        self.dot(*self)
    }

    /// Dot product.
    pub fn dot(&self, v2: Vec3) -> (r: Scalar)
        ensures
            r == self.dot_spec(v2),
    {
        Scalar {
            raw: rescaled_sum3(self.x.raw, v2.x.raw, self.y.raw, v2.y.raw, self.z.raw, v2.z.raw),
        }
    }

    /// Cross product.
    pub fn cross(&self, v2: Vec3) -> (r: Vec3)
        ensures
            r == self.cross_spec(v2),
    {
        Vec3 {
            x: Scalar::mul_sub(self.y, v2.z, self.z, v2.y),
            y: Scalar::mul_sub(self.z, v2.x, self.x, v2.z),
            z: Scalar::mul_sub(self.x, v2.y, self.y, v2.x),
        }
    }

    /// Whether some component is smaller in magnitude than `10^-8`.
    pub fn near_zero(&self) -> (b: bool)
        ensures
            b == self.near_zero_spec(),
    {
        let s: i64 = NEAR_ZERO_RAW;
        self.x.abs().raw < s || self.y.abs().raw < s || self.z.abs().raw < s
    }
}

impl core::ops::Add for Vec3 {
    type Output = Vec3;

    /// Component-wise sum.
    fn add(self, other: Vec3) -> (r: Vec3)
        ensures
            r == self.plus(other),
    {
        Vec3 { x: self.x + other.x, y: self.y + other.y, z: self.z + other.z }
    }
}

impl vstd::std_specs::ops::AddSpecImpl for Vec3 {
    open spec fn obeys_add_spec() -> bool {
        true
    }

    open spec fn add_req(self, other: Vec3) -> bool {
        true
    }

    open spec fn add_spec(self, other: Vec3) -> Vec3 {
        self.plus(other)
    }
}

impl core::ops::Sub for Vec3 {
    type Output = Vec3;

    /// Component-wise difference.
    fn sub(self, other: Vec3) -> (r: Vec3)
        ensures
            r == self.minus(other),
    {
        Vec3 { x: self.x - other.x, y: self.y - other.y, z: self.z - other.z }
    }
}

impl vstd::std_specs::ops::SubSpecImpl for Vec3 {
    open spec fn obeys_sub_spec() -> bool {
        true
    }

    open spec fn sub_req(self, other: Vec3) -> bool {
        true
    }

    open spec fn sub_spec(self, other: Vec3) -> Vec3 {
        self.minus(other)
    }
}

impl core::ops::Mul for Vec3 {
    type Output = Vec3;

    /// Component-wise product.
    fn mul(self, other: Vec3) -> (r: Vec3)
        ensures
            r == self.times(other),
    {
        Vec3 { x: self.x * other.x, y: self.y * other.y, z: self.z * other.z }
    }
}

impl vstd::std_specs::ops::MulSpecImpl for Vec3 {
    open spec fn obeys_mul_spec() -> bool {
        true
    }

    open spec fn mul_req(self, other: Vec3) -> bool {
        true
    }

    open spec fn mul_spec(self, other: Vec3) -> Vec3 {
        self.times(other)
    }
}

impl core::ops::Div for Vec3 {
    type Output = Vec3;

    /// Component-wise quotient by a vector without a zero component.
    fn div(self, other: Vec3) -> (r: Vec3)
        ensures
            r == self.over(other),
    {
        Vec3 { x: self.x / other.x, y: self.y / other.y, z: self.z / other.z }
    }
}

impl vstd::std_specs::ops::DivSpecImpl for Vec3 {
    open spec fn obeys_div_spec() -> bool {
        true
    }

    open spec fn div_req(self, other: Vec3) -> bool {
        other.x@ != 0 && other.y@ != 0 && other.z@ != 0
    }

    open spec fn div_spec(self, other: Vec3) -> Vec3 {
        self.over(other)
    }
}

impl core::ops::Mul<Vec3> for Scalar {
    type Output = Vec3;

    /// The vector `v` scaled by `self`.
    fn mul(self, v: Vec3) -> (r: Vec3)
        ensures
            r == v.scaled(self),
    {
        Vec3 { x: v.x * self, y: v.y * self, z: v.z * self }
    }
}

impl vstd::std_specs::ops::MulSpecImpl<Vec3> for Scalar {
    open spec fn obeys_mul_spec() -> bool {
        true
    }

    open spec fn mul_req(self, v: Vec3) -> bool {
        true
    }

    open spec fn mul_spec(self, v: Vec3) -> Vec3 {
        v.scaled(self)
    }
}

impl core::ops::Div<Scalar> for Vec3 {
    type Output = Vec3;

    /// The vector divided by the non-zero scalar `t`.
    fn div(self, t: Scalar) -> (r: Vec3)
        ensures
            r == self.divided(t),
    {
        Vec3 { x: self.x / t, y: self.y / t, z: self.z / t }
    }
}

impl vstd::std_specs::ops::DivSpecImpl<Scalar> for Vec3 {
    open spec fn obeys_div_spec() -> bool {
        true
    }

    open spec fn div_req(self, t: Scalar) -> bool {
        t@ != 0
    }

    open spec fn div_spec(self, t: Scalar) -> Vec3 {
        self.divided(t)
    }
}

impl core::ops::Mul<Scalar> for Vec3 {
    type Output = Vec3;

    /// The vector scaled by `t`.
    fn mul(self, t: Scalar) -> (r: Vec3)
        ensures
            r == self.scaled(t),
    {
        Vec3 { x: self.x * t, y: self.y * t, z: self.z * t }
    }
}

impl vstd::std_specs::ops::MulSpecImpl<Scalar> for Vec3 {
    open spec fn obeys_mul_spec() -> bool {
        true
    }

    open spec fn mul_req(self, t: Scalar) -> bool {
        true
    }

    open spec fn mul_spec(self, t: Scalar) -> Vec3 {
        self.scaled(t)
    }
}

impl core::ops::Neg for Vec3 {
    type Output = Vec3;

    /// The opposite vector.
    fn neg(self) -> (r: Vec3)
        ensures
            r == self.negated(),
    {
        Vec3 { x: self.x.neg(), y: self.y.neg(), z: self.z.neg() }
    }
}

impl vstd::std_specs::ops::NegSpecImpl for Vec3 {
    open spec fn obeys_neg_spec() -> bool {
        true
    }

    open spec fn neg_req(self) -> bool {
        true
    }

    open spec fn neg_spec(self) -> Vec3 {
        self.negated()
    }
}

impl core::ops::AddAssign for Vec3 {
    /// Adds `other` component by component.
    fn add_assign(&mut self, other: Vec3)
        ensures
            *final(self) == old(self).plus(other),
    {
        self.x = self.x + other.x;
        self.y = self.y + other.y;
        self.z = self.z + other.z;
    }
}

impl core::ops::SubAssign for Vec3 {
    /// Subtracts `other` component by component.
    fn sub_assign(&mut self, other: Vec3)
        ensures
            *final(self) == old(self).minus(other),
    {
        self.x = self.x - other.x;
        self.y = self.y - other.y;
        self.z = self.z - other.z;
    }
}

impl core::ops::MulAssign for Vec3 {
    /// Multiplies by `other` component by component.
    fn mul_assign(&mut self, other: Vec3)
        ensures
            *final(self) == old(self).times(other),
    {
        self.x = self.x * other.x;
        self.y = self.y * other.y;
        self.z = self.z * other.z;
    }
}

impl core::ops::DivAssign for Vec3 {
    /// Divides by `other` component by component.
    fn div_assign(&mut self, other: Vec3)
        requires
            other.x@ != 0 && other.y@ != 0 && other.z@ != 0,
        ensures
            *final(self) == old(self).over(other),
    {
        self.x = self.x / other.x;
        self.y = self.y / other.y;
        self.z = self.z / other.z;
    }
}

impl core::ops::MulAssign<Scalar> for Vec3 {
    /// Scales by `t`.
    fn mul_assign(&mut self, t: Scalar)
        ensures
            *final(self) == old(self).scaled(t),
    {
        self.x = self.x * t;
        self.y = self.y * t;
        self.z = self.z * t;
    }
}

impl core::ops::DivAssign<Scalar> for Vec3 {
    /// Scales by the reciprocal of the non-zero scalar `t`.
    fn div_assign(&mut self, t: Scalar)
        requires
            t@ != 0,
        ensures
            *final(self) == old(self).scaled(Scalar::of(ONE_RAW as int).over(t)),
    {
        let k = Scalar::one() / t;

        self.x = self.x * k;
        self.y = self.y * k;
        self.z = self.z * k;
    }
}

impl core::ops::Index<usize> for Vec3 {
    type Output = Scalar;

    /// Component `i`, for `i` below three.
    fn index(&self, i: usize) -> (r: &Scalar)
        ensures
            *r == self.component(i as int),
    {
        if i == 0 {
            &self.x
        } else if i == 1 {
            &self.y
        } else {
            &self.z
        }
    }
}

impl vstd::std_specs::core::IndexSpecImpl<usize> for Vec3 {
    open spec fn index_req(&self, i: &usize) -> bool {
        *i < 3
    }
}

impl core::ops::IndexMut<usize> for Vec3 {
    /// Component `i`, for `i` below three, to be written.
    fn index_mut(&mut self, i: usize) -> (r: &mut Scalar)
        requires
            i < 3,
        ensures
            *r == old(self).component(i as int),
            *final(self) == old(self).with_component(i as int, *final(r)),
    {
        if i == 0 {
            &mut self.x
        } else if i == 1 {
            &mut self.y
        } else {
            &mut self.z
        }
    }
}

/// The vector of length one in the direction of `v`: `v` divided by its
/// length, which must not be zero.
pub open spec fn unit_vector_spec(v: Vec3) -> Vec3
    recommends
        v.length_spec()@ != 0,
{
    v.divided(v.length_spec())
}

/// The mirror image of `v` at the plane with unit normal `n`:
/// `v - 2 * dot(v, n) * n`.
pub open spec fn reflect_spec(v: Vec3, n: Vec3) -> Vec3 {
    v.minus(n.scaled(Scalar::of(2 * ONE_RAW).times(v.dot_spec(n))))
}

/// Normalises `v`, whose length `l` must not be zero. The length of the
/// result is at least `1 - 2 * 2^-32` and, unless `l` is saturated, at most
/// `1 + 2^-32 * ((2^32 - 1) / l)`, with `l` in raw units.
pub fn unit_vector(v: Vec3) -> (u: Vec3)
    requires
        v.length_spec()@ != 0,
    ensures
        u == unit_vector_spec(v),
        ONE_RAW - 2 <= u.length_spec()@,
        v.has_length() ==> u.length_spec()@ <= ONE_RAW + (ONE_RAW - 1) / v.length_spec()@,
{
    proof {
        lemma_unit_vector_has_unit_length(v);
    }
    v / v.length()
}

/// Reflects `v` at the plane with unit normal `n`.
pub fn reflect(v: Vec3, n: Vec3) -> (r: Vec3)
    ensures
        r == reflect_spec(v, n),
{
    v - Scalar::from_int(2) * v.dot(n) * n
}

/// `v` scaled to length one, or the zero vector where `v` has length zero.
pub open spec fn normalized_spec(v: Vec3) -> Vec3 {
    if v.length_spec()@ == 0 {
        Vec3::zero_spec()
    } else {
        unit_vector_spec(v)
    }
}

/// `v` scaled to length one, or the zero vector where `v` has length zero.
pub fn normalized(v: Vec3) -> (u: Vec3)
    ensures
        u == normalized_spec(v),
{
    if v.length().raw == 0 {
        Vec3::zero()
    } else {
        unit_vector(v)
    }
}

/// The vector whose components lie between `min` and `max` at the fractions
/// that `bx`, `by` and `bz` encode.
pub open spec fn vector_in_range_spec(min: Scalar, max: Scalar, bx: u32, by: u32, bz: u32) -> Vec3 {
    Vec3 {
        x: lerp_spec(min, max, fraction_spec(bx)),
        y: lerp_spec(min, max, fraction_spec(by)),
        z: lerp_spec(min, max, fraction_spec(bz)),
    }
}

/// The vector whose components lie between `min` and `max` at the fractions
/// that `bx`, `by` and `bz` encode.
pub fn vector_in_range(min: Scalar, max: Scalar, bx: u32, by: u32, bz: u32) -> (v: Vec3)
    ensures
        v == vector_in_range_spec(min, max, bx, by, bz),
{
    Vec3::new(
        lerp(min, max, fraction(bx)),
        lerp(min, max, fraction(by)),
        lerp(min, max, fraction(bz)),
    )
}

/// A random vector with each component between `min` and `max`.
pub fn random_vector(min: Scalar, max: Scalar) -> (v: Vec3)
    ensures
        exists|bx: u32, by: u32, bz: u32| v == vector_in_range_spec(min, max, bx, by, bz),
        min@ <= max@ ==> {
            &&& saturate(min@) <= v.x@ <= saturate(max@)
            &&& saturate(min@) <= v.y@ <= saturate(max@)
            &&& saturate(min@) <= v.z@ <= saturate(max@)
        },
{
    let bx = random_bits();
    let by = random_bits();
    let bz = random_bits();
    proof {
        if min@ <= max@ {
            lemma_lerp_between(min, max, fraction_spec(bx));
            lemma_lerp_between(min, max, fraction_spec(by));
            lemma_lerp_between(min, max, fraction_spec(bz));
        }
    }
    vector_in_range(min, max, bx, by, bz)
}

/// `p` if it lies on the side of `normal`, else its opposite.
pub open spec fn in_hemisphere_spec(p: Vec3, normal: Vec3) -> Vec3 {
    if p.dot_spec(normal)@ > 0 {
        p
    } else {
        p.negated()
    }
}

/// `p` if it lies on the side of `normal`, else its opposite.
pub fn in_hemisphere(p: Vec3, normal: Vec3) -> (r: Vec3)
    ensures
        r == in_hemisphere_spec(p, normal),
{
    if p.dot(normal).raw > 0 {
        p
    } else {
        p.neg()
    }
}

/// A random point inside the unit sphere, on the side of `normal`.
pub fn random_in_hemisphere(normal: Vec3) -> (r: Vec3)
    ensures
        exists|p: Vec3| p.in_unit_sphere_spec() && r == in_hemisphere_spec(p, normal),
        r.in_unit_sphere_spec(),
        r.dot_spec(normal)@ >= 0,
{
    let in_unit_sphere = random_in_unit_sphere();
    proof {
        lemma_in_hemisphere(in_unit_sphere, normal);
    }
    in_hemisphere(in_unit_sphere, normal)
}

/// A random direction: a random point inside the unit sphere, normalised.
/// It is the zero vector where that point has length zero, and has length
/// one up to rounding otherwise.
pub fn random_unit_vector() -> (u: Vec3)
    ensures
        exists|p: Vec3| p.in_unit_sphere_spec() && u == normalized_spec(p),
        u == Vec3::zero_spec() || ONE_RAW - 2 <= u.length_spec()@ <= 2 * ONE_RAW - 1,
{
    let p = random_in_unit_sphere();
    proof {
        lemma_normalized_in_unit_sphere(p);
        lemma_zero_length(p);
        let l = p.length_spec()@;
        if l > 0 {
            vstd::arithmetic::div_mod::lemma_div_is_ordered_by_denominator(ONE_RAW - 1, 1, l);
        }
    }
    normalized(p)
}

/// How many candidates `random_in_unit_sphere` draws before it gives up.
pub const MAX_ATTEMPTS: u32 = 64;

/// The candidate point of the cube `[-1, 1)^3` that `bx`, `by` and `bz`
/// encode.
pub open spec fn candidate_spec(bx: u32, by: u32, bz: u32) -> Vec3 {
    vector_in_range_spec(Scalar::of(-ONE_RAW), Scalar::of(ONE_RAW as int), bx, by, bz)
}

/// Whether `c` is a candidate point: one that some random bits encode.
pub open spec fn is_candidate(c: Vec3) -> bool {
    exists|bx: u32, by: u32, bz: u32| c == #[trigger] candidate_spec(bx, by, bz)
}

/// The first of `candidates` that lies inside the unit sphere, or the centre
/// where none does.
pub open spec fn first_inside_spec(candidates: Seq<Vec3>) -> Vec3
    decreases candidates.len(),
{
    if candidates.len() == 0 {
        Vec3::zero_spec()
    } else if candidates[0].in_unit_sphere_spec() {
        candidates[0]
    } else {
        first_inside_spec(candidates.drop_first())
    }
}

/// Candidates outside the unit sphere are passed over.
pub proof fn lemma_first_inside_skips(rejected: Seq<Vec3>, rest: Seq<Vec3>)
    requires
        forall|i: int| 0 <= i < rejected.len() ==> !(#[trigger] rejected[i]).in_unit_sphere_spec(),
    ensures
        first_inside_spec(rejected + rest) == first_inside_spec(rest),
    decreases rejected.len(),
{
    if rejected.len() == 0 {
        assert(rejected + rest =~= rest);
    } else {
        assert((rejected + rest)[0] == rejected[0]);
        assert((rejected + rest).drop_first() =~= rejected.drop_first() + rest);
        assert forall|i: int| 0 <= i < rejected.drop_first().len() implies !(
        #[trigger] rejected.drop_first()[i]).in_unit_sphere_spec() by {
            assert(rejected.drop_first()[i] == rejected[i + 1]);
        }
        lemma_first_inside_skips(rejected.drop_first(), rest);
    }
}

/// The first of `candidates` that lies inside the unit sphere, or the centre
/// where none does.
pub fn first_inside(candidates: &Vec<Vec3>) -> (p: Vec3)
    ensures
        p == first_inside_spec(candidates@),
        p.in_unit_sphere_spec(),
{
    let mut k: usize = 0;
    while k < candidates.len()
        invariant
            k <= candidates.len(),
            forall|i: int| 0 <= i < k ==> !(#[trigger] candidates@[i]).in_unit_sphere_spec(),
        decreases candidates.len() - k,
    {
        if candidates[k].in_unit_sphere() {
            proof {
                lemma_first_inside_skips(candidates@.take(k as int), candidates@.skip(k as int));
                assert(candidates@.take(k as int) + candidates@.skip(k as int) =~= candidates@);
            }
            return candidates[k];
        }
        k += 1;
    }
    proof {
        lemma_first_inside_skips(candidates@, Seq::<Vec3>::empty());
        assert(candidates@ + Seq::<Vec3>::empty() =~= candidates@);
        lemma_zero_in_unit_sphere();
    }
    Vec3::zero()
}

/// A random point inside the unit sphere, by rejection: candidates with
/// components in `[-1, 1)` are drawn until one lies inside. Should
/// `MAX_ATTEMPTS` candidates in a row fall outside, the centre is returned.
pub fn random_in_unit_sphere() -> (p: Vec3)
    ensures
        p.in_unit_sphere_spec(),
        exists|candidates: Seq<Vec3>|
            {
                &&& candidates.len() <= MAX_ATTEMPTS
                &&& forall|i: int|
                    0 <= i < candidates.len() ==> is_candidate(#[trigger] candidates[i])
                &&& p == #[trigger] first_inside_spec(candidates)
            },
{
    let ghost mut rejected = Seq::<Vec3>::empty();
    let mut attempt: u32 = 0;
    while attempt < MAX_ATTEMPTS
        invariant
            attempt <= MAX_ATTEMPTS,
            rejected.len() == attempt,
            forall|i: int| 0 <= i < rejected.len() ==> is_candidate(#[trigger] rejected[i]),
            forall|i: int|
                0 <= i < rejected.len() ==> !(#[trigger] rejected[i]).in_unit_sphere_spec(),
        decreases MAX_ATTEMPTS - attempt,
    {
        let lo = Scalar::from_int(-1);
        let hi = Scalar::from_int(1);
        let p = random_vector(lo, hi);
        proof {
            let (bx, by, bz) = choose|bx: u32, by: u32, bz: u32|
                p == vector_in_range_spec(lo, hi, bx, by, bz);
            assert(p == candidate_spec(bx, by, bz));
        }
        if p.in_unit_sphere() {
            proof {
                let candidates = rejected.push(p);
                assert(candidates =~= rejected + seq![p]);
                lemma_first_inside_skips(rejected, seq![p]);
                assert(first_inside_spec(seq![p]) == p);
                assert(first_inside_spec(candidates) == p);
            }
            return p;
        }
        proof {
            rejected = rejected.push(p);
        }
        attempt += 1;
    }
    proof {
        lemma_first_inside_skips(rejected, Seq::<Vec3>::empty());
        assert(rejected + Seq::<Vec3>::empty() =~= rejected);
        lemma_zero_in_unit_sphere();
    }
    Vec3::zero()
}

/// The centre lies inside the unit sphere.
pub proof fn lemma_zero_in_unit_sphere()
    ensures
        Vec3::zero_spec().in_unit_sphere_spec(),
{
    let zero: int = Vec3::zero_spec().x@;
    assert(zero * zero == 0) by (nonlinear_arith)
        requires
            zero == 0,
    ;
}

} // verus!
