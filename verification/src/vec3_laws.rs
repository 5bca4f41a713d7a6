//! Algebraic laws of the vector operations, with the exact size of every
//! rounding error.

use crate::arith::{abs, isqrt, rescale, MAX_RAW, ONE_RAW};
use crate::scalar::Scalar;
use crate::vec3::{in_hemisphere_spec, normalized_spec, unit_vector_spec, Vec3};
use vstd::prelude::*;

verus! {

/// Rounding toward zero and saturation commute with negation.
pub proof fn lemma_rescale_odd(p: int)
    ensures
        rescale(-p) == -rescale(p),
        -MAX_RAW <= rescale(p) <= MAX_RAW,
{
}

/// Turning one factor of a dot product around turns the sign of the product
/// around, unless a component of that factor is the one 64-bit value without
/// an opposite.
pub proof fn lemma_dot_negated(d: Vec3, n: Vec3)
    requires
        -MAX_RAW <= n.x@ && -MAX_RAW <= n.y@ && -MAX_RAW <= n.z@,
    ensures
        d.dot_spec(n.negated())@ == -d.dot_spec(n)@,
        n.negated().dot_spec(d)@ == -n.dot_spec(d)@,
{
    let m = n.negated();
    let e = d.x@ * n.x@ + d.y@ * n.y@ + d.z@ * n.z@;
    let f = n.x@ * d.x@ + n.y@ * d.y@ + n.z@ * d.z@;
    assert(d.x@ * m.x@ + d.y@ * m.y@ + d.z@ * m.z@ == -e && m.x@ * d.x@ + m.y@ * d.y@ + m.z@
        * d.z@ == -f) by (nonlinear_arith)
        requires
            m.x@ == -n.x@,
            m.y@ == -n.y@,
            m.z@ == -n.z@,
            e == d.x@ * n.x@ + d.y@ * n.y@ + d.z@ * n.z@,
            f == n.x@ * d.x@ + n.y@ * d.y@ + n.z@ * d.z@,
    ;
    lemma_rescale_odd(e);
    lemma_rescale_odd(f);
}

/// The cross product is anticommutative, exactly:
/// `cross(a, b) == -cross(b, a)` for all vectors.
pub proof fn lemma_cross_anticommutative(a: Vec3, b: Vec3)
    ensures
        a.cross_spec(b) == b.cross_spec(a).negated(),
{
    lemma_difference_swaps(a.y@, b.z@, a.z@, b.y@);
    lemma_difference_swaps(a.z@, b.x@, a.x@, b.z@);
    lemma_difference_swaps(a.x@, b.y@, a.y@, b.x@);
    lemma_rescale_odd(b.y@ * a.z@ - b.z@ * a.y@);
    lemma_rescale_odd(b.z@ * a.x@ - b.x@ * a.z@);
    lemma_rescale_odd(b.x@ * a.y@ - b.y@ * a.x@);
}

/// `p q - r s == -(s r - q p)`.
proof fn lemma_difference_swaps(p: int, q: int, r: int, s: int)
    ensures
        p * q - r * s == -(s * r - q * p),
{
    assert(p * q - r * s == -(s * r - q * p)) by (nonlinear_arith);
}

/// Whether no component of `cross(a, b)` is saturated: each exact difference
/// of products lies within the range of a scalar.
pub open spec fn cross_fits(a: Vec3, b: Vec3) -> bool {
    let limit = (MAX_RAW + 1) * ONE_RAW;
    &&& abs(a.y@ * b.z@ - a.z@ * b.y@) < limit
    &&& abs(a.z@ * b.x@ - a.x@ * b.z@) < limit
    &&& abs(a.x@ * b.y@ - a.y@ * b.x@) < limit
}

/// The cross product is orthogonal to its first factor up to rounding:
/// `|dot(a, cross(a, b))|` is at most `2^-32` times the sum of the magnitudes
/// of the components of `a`, wherever the cross product is not saturated.
pub proof fn lemma_cross_orthogonal(a: Vec3, b: Vec3)
    requires
        cross_fits(a, b),
    ensures
        abs(a.dot_spec(a.cross_spec(b))@) <= (abs(a.x@) + abs(a.y@) + abs(a.z@)) / (ONE_RAW as int),
{
    let k = a.cross_spec(b);
    let ex = (a.y@ * b.z@ - a.z@ * b.y@) - k.x@ * ONE_RAW;
    let ey = (a.z@ * b.x@ - a.x@ * b.z@) - k.y@ * ONE_RAW;
    let ez = (a.x@ * b.y@ - a.y@ * b.x@) - k.z@ * ONE_RAW;
    lemma_rescale_error(a.y@ * b.z@ - a.z@ * b.y@);
    lemma_rescale_error(a.z@ * b.x@ - a.x@ * b.z@);
    lemma_rescale_error(a.x@ * b.y@ - a.y@ * b.x@);
    lemma_triple_product(
        (a.x@, a.y@, a.z@),
        (b.x@, b.y@, b.z@),
        (k.x@, k.y@, k.z@),
        (ex, ey, ez),
    );
}

/// The cross product is orthogonal to its second factor up to rounding, as
/// it is to its first.
pub proof fn lemma_cross_orthogonal_second(a: Vec3, b: Vec3)
    requires
        cross_fits(a, b),
    ensures
        abs(b.dot_spec(a.cross_spec(b))@) <= (abs(b.x@) + abs(b.y@) + abs(b.z@)) / (ONE_RAW as int),
{
    lemma_difference_swaps(a.y@, b.z@, a.z@, b.y@);
    lemma_difference_swaps(a.z@, b.x@, a.x@, b.z@);
    lemma_difference_swaps(a.x@, b.y@, a.y@, b.x@);
    assert(cross_fits(b, a));
    lemma_cross_orthogonal(b, a);
    lemma_cross_anticommutative(a, b);
    let k = b.cross_spec(a);
    lemma_rescale_odd(b.y@ * a.z@ - b.z@ * a.y@);
    lemma_rescale_odd(b.z@ * a.x@ - b.x@ * a.z@);
    lemma_rescale_odd(b.x@ * a.y@ - b.y@ * a.x@);
    lemma_dot_negated(b, k);
}

/// Bringing an exact product `p` that fits back to the raw scale loses less
/// than one raw unit.
proof fn lemma_rescale_error(p: int)
    requires
        abs(p) < (MAX_RAW + 1) * ONE_RAW,
    ensures
        abs(p - rescale(p) * ONE_RAW) < ONE_RAW,
{
    let one = ONE_RAW as int;
    let n = abs(p);
    vstd::arithmetic::div_mod::lemma_fundamental_div_mod(n, one);
    vstd::arithmetic::div_mod::lemma_mod_bound(n, one);
    assert(0 <= n / one <= MAX_RAW);
}

/// `|x e| <= |x| m` where `|e| <= m`.
proof fn lemma_product_bound(x: int, e: int, m: int)
    requires
        abs(e) <= m,
    ensures
        abs(x * e) <= abs(x) * m,
{
    assert(abs(x * e) <= abs(x) * m) by (nonlinear_arith)
        requires
            abs(e) <= m,
    ;
}

/// `x (y z) == y (x z)`.
proof fn lemma_factors_swap(x: int, y: int, z: int)
    ensures
        x * (y * z) == y * (x * z),
{
    assert(x * (y * z) == y * (x * z)) by (nonlinear_arith);
}

/// `x (p - q) == x p - x q`.
proof fn lemma_distributes(x: int, p: int, q: int)
    ensures
        x * (p - q) == x * p - x * q,
{
    assert(x * (p - q) == x * p - x * q) by (nonlinear_arith);
}

/// The scalar triple product with a repeated factor vanishes:
/// `a . (a x b) == 0` in exact arithmetic.
proof fn lemma_triple_product_vanishes(a: (int, int, int), b: (int, int, int))
    ensures
        a.0 * (a.1 * b.2 - a.2 * b.1) + a.1 * (a.2 * b.0 - a.0 * b.2) + a.2 * (a.0 * b.1 - a.1
            * b.0) == 0,
{
    lemma_distributes(a.0, a.1 * b.2, a.2 * b.1);
    lemma_distributes(a.1, a.2 * b.0, a.0 * b.2);
    lemma_distributes(a.2, a.0 * b.1, a.1 * b.0);
    lemma_factors_swap(a.0, a.1, b.2);
    lemma_factors_swap(a.0, a.2, b.1);
    lemma_factors_swap(a.1, a.2, b.0);
}

/// Where `k` times one unit plus `e` is `c`, `(x k)` times one unit is
/// `x c - x e`.
proof fn lemma_scaled_term(x: int, k: int, e: int, c: int)
    requires
        k * ONE_RAW + e == c,
    ensures
        (x * k) * ONE_RAW == x * c - x * e,
{
    assert((x * k) * ONE_RAW == x * c - x * e) by (nonlinear_arith)
        requires
            k * ONE_RAW + e == c,
    ;
}

/// Where `k` is the cross product of `a` and `b` up to the errors `e`, each
/// smaller than one unit, `dot(a, k)` times one unit is at most the sum of
/// the magnitudes of the components of `a` times less than one unit.
proof fn lemma_triple_product(
    a: (int, int, int),
    b: (int, int, int),
    k: (int, int, int),
    e: (int, int, int),
)
    requires
        k.0 * ONE_RAW + e.0 == a.1 * b.2 - a.2 * b.1,
        k.1 * ONE_RAW + e.1 == a.2 * b.0 - a.0 * b.2,
        k.2 * ONE_RAW + e.2 == a.0 * b.1 - a.1 * b.0,
        abs(e.0) < ONE_RAW,
        abs(e.1) < ONE_RAW,
        abs(e.2) < ONE_RAW,
    ensures
        abs(a.0 * k.0 + a.1 * k.1 + a.2 * k.2) <= abs(a.0) + abs(a.1) + abs(a.2),
{
    let one = ONE_RAW as int;
    let d = a.0 * k.0 + a.1 * k.1 + a.2 * k.2;
    let r = a.0 * e.0 + a.1 * e.1 + a.2 * e.2;
    let cx = a.1 * b.2 - a.2 * b.1;
    let cy = a.2 * b.0 - a.0 * b.2;
    let cz = a.0 * b.1 - a.1 * b.0;
    lemma_scaled_term(a.0, k.0, e.0, cx);
    lemma_scaled_term(a.1, k.1, e.1, cy);
    lemma_scaled_term(a.2, k.2, e.2, cz);
    lemma_triple_product_vanishes(a, b);
    assert(d * one == (a.0 * k.0) * one + (a.1 * k.1) * one + (a.2 * k.2) * one) by (
    nonlinear_arith)
        requires
            d == a.0 * k.0 + a.1 * k.1 + a.2 * k.2,
    ;
    assert(d * one + r == 0);
    lemma_product_bound(a.0, e.0, one - 1);
    lemma_product_bound(a.1, e.1, one - 1);
    lemma_product_bound(a.2, e.2, one - 1);
    let s = abs(a.0) + abs(a.1) + abs(a.2);
    assert(abs(r) <= s * (one - 1)) by (nonlinear_arith)
        requires
            r == a.0 * e.0 + a.1 * e.1 + a.2 * e.2,
            abs(a.0 * e.0) <= abs(a.0) * (one - 1),
            abs(a.1 * e.1) <= abs(a.1) * (one - 1),
            abs(a.2 * e.2) <= abs(a.2) * (one - 1),
            s == abs(a.0) + abs(a.1) + abs(a.2),
    ;
    assert(abs(d) <= s) by (nonlinear_arith)
        requires
            d * one + r == 0,
            abs(r) <= s * (one - 1),
            one == 4294967296,
            0 <= s,
    ;
}

/// The magnitude of the component `c` of a vector of length `l` after
/// division by `l`: `|c| * 2^32 / l`, rounded down.
pub open spec fn unit_magnitude(c: int, l: int) -> int {
    (abs(c) * ONE_RAW) / l
}

/// Squares respect order on the natural numbers.
proof fn lemma_square_monotone(x: int, y: int)
    requires
        0 <= x,
    ensures
        x <= y ==> x * x <= y * y,
        x < y ==> x * x < y * y,
        x * x <= y * y && 0 <= y ==> x <= y,
        x * x < y * y && 0 <= y ==> x < y,
{
    assert((x <= y ==> x * x <= y * y) && (x < y ==> x * x < y * y) && (x * x <= y * y && 0 <= y
        ==> x <= y) && (x * x < y * y && 0 <= y ==> x < y)) by (nonlinear_arith)
        requires
            0 <= x,
    ;
}

/// `(x y)^2 == x^2 y^2`, and `|c|^2 == c^2`.
proof fn lemma_square_of_product(x: int, y: int)
    ensures
        (x * y) * (x * y) == (x * x) * (y * y),
        abs(x) * abs(x) == x * x,
{
    assert((x * y) * (x * y) == (x * x) * (y * y)) by (nonlinear_arith);
    assert(abs(x) * abs(x) == x * x) by (nonlinear_arith);
}

/// The length of a vector that is not zero: it is positive, its square does
/// not exceed the sum of squares, and unless it is saturated it bounds each
/// component and is the integer square root of the sum of squares.
proof fn lemma_length_bounds(v: Vec3)
    requires
        v.length_spec()@ != 0,
    ensures
        0 < v.length_spec()@ <= MAX_RAW,
        v.length_spec()@ * v.length_spec()@ <= v.norm_square(),
        !v.has_length() ==> v.length_spec()@ == MAX_RAW,
        v.has_length() ==> {
            &&& v.length_spec()@ == isqrt(v.norm_square())
            &&& v.norm_square() < (v.length_spec()@ + 1) * (v.length_spec()@ + 1)
            &&& abs(v.x@) <= v.length_spec()@
            &&& abs(v.y@) <= v.length_spec()@
            &&& abs(v.z@) <= v.length_spec()@
        },
{
    let s = v.norm_square();
    let l = isqrt(s);
    let top = MAX_RAW + 1;
    lemma_zero_length(v);
    crate::arith::lemma_isqrt_exists(s);
    if v.has_length() {
        lemma_square_monotone(l, top);
        lemma_square_of_product(v.x@, 1);
        lemma_square_of_product(v.y@, 1);
        lemma_square_of_product(v.z@, 1);
        assert(v.x@ * v.x@ >= 0 && v.y@ * v.y@ >= 0 && v.z@ * v.z@ >= 0) by (nonlinear_arith);
        lemma_square_monotone(abs(v.x@), l + 1);
        lemma_square_monotone(abs(v.y@), l + 1);
        lemma_square_monotone(abs(v.z@), l + 1);
    } else {
        assert(crate::arith::is_isqrt(top, top * top)) by (nonlinear_arith)
            requires
                top > 0,
        ;
        crate::arith::lemma_isqrt_unique(top, top * top);
        crate::arith::lemma_isqrt_monotone(top * top, s);
        lemma_square_monotone(MAX_RAW as int, l);
        assert(MAX_RAW * MAX_RAW <= l * l);
    }
}

/// Dividing the component `c` by a length `l` that is at least `|c|`, or
/// saturated, gives `unit_magnitude` with the sign of `c`, which is at most
/// one and, times `l`, within `l` of `|c| * 2^32`.
proof fn lemma_unit_component(c: Scalar, len: Scalar)
    requires
        0 < len@ <= MAX_RAW,
        abs(c@) <= len@ || len@ == MAX_RAW,
    ensures
        c.over(len)@ == (if c@ >= 0 {
            unit_magnitude(c@, len@)
        } else {
            -unit_magnitude(c@, len@)
        }),
        0 <= unit_magnitude(c@, len@) <= ONE_RAW,
        unit_magnitude(c@, len@) * len@ <= abs(c@) * ONE_RAW,
        abs(c@) * ONE_RAW < (unit_magnitude(c@, len@) + 1) * len@,
{
    let l = len@;
    let one = ONE_RAW as int;
    let n = abs(c@) * one;
    let m = unit_magnitude(c@, l);
    vstd::arithmetic::div_mod::lemma_fundamental_div_mod(n, l);
    vstd::arithmetic::div_mod::lemma_mod_bound(n, l);
    assert(m * l <= n && n < (m + 1) * l) by (nonlinear_arith)
        requires
            n == l * m + n % l,
            0 <= n % l < l,
    ;
    assert(0 <= m <= one) by (nonlinear_arith)
        requires
            m * l <= n,
            n < (m + 1) * l,
            0 <= n,
            n <= l * one || (n <= l * one + one && l > one),
            l > 0,
            one > 0,
    ;
    assert(abs(c@ * one) == n);
}

/// Where `m l <= |c| 2^32`, also `m^2 l^2 <= c^2 2^64`; where
/// `|c| 2^32 < (m + 1) l`, also `c^2 2^64 < (m + 1)^2 l^2`.
proof fn lemma_component_squares(m: int, c: int, l: int)
    requires
        0 <= m,
        0 < l,
    ensures
        m * l <= abs(c) * ONE_RAW ==> (m * m) * (l * l) <= (c * c) * (ONE_RAW * ONE_RAW),
        abs(c) * ONE_RAW < (m + 1) * l ==> (c * c) * (ONE_RAW * ONE_RAW) < ((m + 1) * (m + 1)) * (l
            * l),
{
    let one = ONE_RAW as int;
    lemma_square_of_product(m, l);
    lemma_square_of_product(m + 1, l);
    lemma_square_of_product(abs(c), one);
    lemma_square_of_product(c, 1);
    assert(0 <= m * l && 0 <= abs(c) * one && 0 <= (m + 1) * l) by (nonlinear_arith)
        requires
            0 <= m,
            0 < l,
            0 <= abs(c),
            0 < one,
    ;
    lemma_square_monotone(m * l, abs(c) * one);
    lemma_square_monotone(abs(c) * one, (m + 1) * l);
}

/// Upper bound: where the magnitudes `m` times `l` stay below the components
/// `c` times one unit, and `l` is the integer square root of the sum of
/// squares of `c`, a root `r` of the sum of squares of `m` exceeds one unit by
/// at most `(2^32 - 1) / l`.
proof fn lemma_unit_length_upper(m: (int, int, int), c: (int, int, int), l: int, r: int)
    requires
        0 < l,
        0 <= r,
        0 <= m.0 && 0 <= m.1 && 0 <= m.2,
        m.0 * l <= abs(c.0) * ONE_RAW,
        m.1 * l <= abs(c.1) * ONE_RAW,
        m.2 * l <= abs(c.2) * ONE_RAW,
        c.0 * c.0 + c.1 * c.1 + c.2 * c.2 < (l + 1) * (l + 1),
        r * r <= m.0 * m.0 + m.1 * m.1 + m.2 * m.2,
    ensures
        r <= ONE_RAW + (ONE_RAW - 1) / l,
{
    let one = ONE_RAW as int;
    let u = m.0 * m.0 + m.1 * m.1 + m.2 * m.2;
    let s = c.0 * c.0 + c.1 * c.1 + c.2 * c.2;
    lemma_component_squares(m.0, c.0, l);
    lemma_component_squares(m.1, c.1, l);
    lemma_component_squares(m.2, c.2, l);
    assert(u * (l * l) <= s * (one * one)) by (nonlinear_arith)
        requires
            u == m.0 * m.0 + m.1 * m.1 + m.2 * m.2,
            s == c.0 * c.0 + c.1 * c.1 + c.2 * c.2,
            (m.0 * m.0) * (l * l) <= (c.0 * c.0) * (one * one),
            (m.1 * m.1) * (l * l) <= (c.1 * c.1) * (one * one),
            (m.2 * m.2) * (l * l) <= (c.2 * c.2) * (one * one),
    ;
    assert((r * r) * (l * l) <= u * (l * l)) by (nonlinear_arith)
        requires
            r * r <= u,
            0 < l,
    ;
    assert(s * (one * one) < ((l + 1) * (l + 1)) * (one * one)) by (nonlinear_arith)
        requires
            s < (l + 1) * (l + 1),
            0 < one,
    ;
    lemma_square_of_product(r, l);
    lemma_square_of_product(l + 1, one);
    assert(0 <= r * l && 0 <= (l + 1) * one) by (nonlinear_arith)
        requires
            0 <= r,
            0 < l,
            0 < one,
    ;
    lemma_square_monotone(r * l, (l + 1) * one);
    assert(r * l < (l + 1) * one);
    assert((r - one) * l <= one - 1) by (nonlinear_arith)
        requires
            r * l < (l + 1) * one,
    ;
    if r > one {
        vstd::arithmetic::div_mod::lemma_fundamental_div_mod(one - 1, l);
        vstd::arithmetic::div_mod::lemma_mod_bound(one - 1, l);
        let q = (one - 1) / l;
        assert(r - one <= q) by (nonlinear_arith)
            requires
                (r - one) * l <= one - 1,
                one - 1 == l * q + (one - 1) % l,
                0 <= (one - 1) % l < l,
                0 < l,
        ;
    } else {
        vstd::arithmetic::div_mod::lemma_div_pos_is_pos(one - 1, l);
    }
}

/// Lower bound: where the magnitudes `m`, each raised by one, times `l`
/// exceed the components `c` times one unit, and `l^2` does not exceed the
/// sum of squares of `c`, the sum of squares of `m` is at least
/// `(2^32 - 2)^2`.
proof fn lemma_unit_length_lower(m: (int, int, int), c: (int, int, int), l: int)
    requires
        0 < l,
        0 <= m.0 && 0 <= m.1 && 0 <= m.2,
        abs(c.0) * ONE_RAW < (m.0 + 1) * l,
        abs(c.1) * ONE_RAW < (m.1 + 1) * l,
        abs(c.2) * ONE_RAW < (m.2 + 1) * l,
        l * l <= c.0 * c.0 + c.1 * c.1 + c.2 * c.2,
    ensures
        (ONE_RAW - 2) * (ONE_RAW - 2) <= m.0 * m.0 + m.1 * m.1 + m.2 * m.2,
{
    let one = ONE_RAW as int;
    let u = m.0 * m.0 + m.1 * m.1 + m.2 * m.2;
    let t = m.0 + m.1 + m.2;
    let s = c.0 * c.0 + c.1 * c.1 + c.2 * c.2;
    let q = (m.0 + 1) * (m.0 + 1) + (m.1 + 1) * (m.1 + 1) + (m.2 + 1) * (m.2 + 1);
    lemma_component_squares(m.0, c.0, l);
    lemma_component_squares(m.1, c.1, l);
    lemma_component_squares(m.2, c.2, l);
    assert(s * (one * one) < q * (l * l)) by (nonlinear_arith)
        requires
            q == (m.0 + 1) * (m.0 + 1) + (m.1 + 1) * (m.1 + 1) + (m.2 + 1) * (m.2 + 1),
            s == c.0 * c.0 + c.1 * c.1 + c.2 * c.2,
            (c.0 * c.0) * (one * one) < ((m.0 + 1) * (m.0 + 1)) * (l * l),
            (c.1 * c.1) * (one * one) < ((m.1 + 1) * (m.1 + 1)) * (l * l),
            (c.2 * c.2) * (one * one) < ((m.2 + 1) * (m.2 + 1)) * (l * l),
    ;
    assert((l * l) * (one * one) <= s * (one * one)) by (nonlinear_arith)
        requires
            l * l <= s,
            0 < one,
    ;
    assert(one * one < q) by (nonlinear_arith)
        requires
            (l * l) * (one * one) < q * (l * l),
            0 < l,
    ;
    assert(q == u + 2 * t + 3) by (nonlinear_arith)
        requires
            q == (m.0 + 1) * (m.0 + 1) + (m.1 + 1) * (m.1 + 1) + (m.2 + 1) * (m.2 + 1),
            u == m.0 * m.0 + m.1 * m.1 + m.2 * m.2,
            t == m.0 + m.1 + m.2,
    ;
    assert(0 <= (m.0 - m.1) * (m.0 - m.1) + (m.1 - m.2) * (m.1 - m.2) + (m.0 - m.2) * (m.0 - m.2))
        by (nonlinear_arith);
    assert(t * t <= 3 * u) by (nonlinear_arith)
        requires
            u == m.0 * m.0 + m.1 * m.1 + m.2 * m.2,
            t == m.0 + m.1 + m.2,
            0 <= (m.0 - m.1) * (m.0 - m.1) + (m.1 - m.2) * (m.1 - m.2) + (m.0 - m.2) * (m.0 - m.2),
    ;
    let k = one - 2;
    if u < k * k {
        assert(t * t < (2 * k) * (2 * k)) by (nonlinear_arith)
            requires
                t * t <= 3 * u,
                u < k * k,
                0 <= u,
        ;
        lemma_square_monotone(t, 2 * k);
        assert(k * k + 4 * k == one * one - 4) by (nonlinear_arith)
            requires
                k == one - 2,
        ;
        assert(false);
    }
}

/// A normalised vector has length one up to rounding. For every `v` whose
/// length `l` is not zero, the length of `unit_vector(v)` is at least
/// `1 - 2 * 2^-32`; unless `l` is saturated, it is at most
/// `1 + 2^-32 * ((2^32 - 1) / l)`, with `l` in raw units, which for vectors
/// at least one long is one.
pub proof fn lemma_unit_vector_has_unit_length(v: Vec3)
    requires
        v.length_spec()@ != 0,
    ensures
        ONE_RAW - 2 <= unit_vector_spec(v).length_spec()@,
        v.has_length() ==> unit_vector_spec(v).length_spec()@ <= ONE_RAW + (ONE_RAW - 1)
            / v.length_spec()@,
{
    let len = v.length_spec();
    let l = len@;
    let u = unit_vector_spec(v);
    lemma_length_bounds(v);
    lemma_unit_component(v.x, len);
    lemma_unit_component(v.y, len);
    lemma_unit_component(v.z, len);
    let m = (unit_magnitude(v.x@, l), unit_magnitude(v.y@, l), unit_magnitude(v.z@, l));
    let c = (v.x@, v.y@, v.z@);
    lemma_square_of_product(u.x@, 1);
    lemma_square_of_product(u.y@, 1);
    lemma_square_of_product(u.z@, 1);
    lemma_square_of_product(m.0, 1);
    lemma_square_of_product(m.1, 1);
    lemma_square_of_product(m.2, 1);
    assert(u.x@ * u.x@ == m.0 * m.0);
    assert(u.y@ * u.y@ == m.1 * m.1);
    assert(u.z@ * u.z@ == m.2 * m.2);
    let sum = u.norm_square();
    assert(sum == m.0 * m.0 + m.1 * m.1 + m.2 * m.2);
    lemma_square_monotone(m.0, ONE_RAW as int);
    lemma_square_monotone(m.1, ONE_RAW as int);
    lemma_square_monotone(m.2, ONE_RAW as int);
    assert(0 <= sum <= 3 * (ONE_RAW * ONE_RAW)) by (nonlinear_arith)
        requires
            sum == m.0 * m.0 + m.1 * m.1 + m.2 * m.2,
            0 <= m.0 * m.0 <= ONE_RAW * ONE_RAW,
            0 <= m.1 * m.1 <= ONE_RAW * ONE_RAW,
            0 <= m.2 * m.2 <= ONE_RAW * ONE_RAW,
    ;
    let r = isqrt(sum);
    crate::arith::lemma_isqrt_exists(sum);
    lemma_square_monotone(r, 2 * ONE_RAW);
    assert(r < 2 * ONE_RAW) by {
        assert(3 * (ONE_RAW * ONE_RAW) < (2 * ONE_RAW) * (2 * ONE_RAW)) by (nonlinear_arith);
    }
    lemma_unit_length_lower(m, c, l);
    let k = ONE_RAW - 2;
    assert(crate::arith::is_isqrt(k, k * k)) by (nonlinear_arith)
        requires
            k == ONE_RAW - 2,
    ;
    crate::arith::lemma_isqrt_unique(k, k * k);
    crate::arith::lemma_isqrt_monotone(k * k, sum);
    if v.has_length() {
        lemma_unit_length_upper(m, c, l, r);
    }
}

/// Dividing a vector by its length and multiplying by that length again
/// reproduces it up to rounding: for every `v` whose length `l` is not zero,
/// each component of `(v / l) * l` differs from that of `v` by at most one
/// raw unit, `2^-32`, and one more for each whole unit of length.
pub proof fn lemma_length_round_trip(v: Vec3)
    requires
        v.length_spec()@ != 0,
    ensures
        ({
            let len = v.length_spec();
            let w = v.divided(len).scaled(len);
            &&& abs(w.x@ - v.x@) <= len@ / (ONE_RAW as int) + 1
            &&& abs(w.y@ - v.y@) <= len@ / (ONE_RAW as int) + 1
            &&& abs(w.z@ - v.z@) <= len@ / (ONE_RAW as int) + 1
        }),
{
    let len = v.length_spec();
    lemma_length_bounds(v);
    lemma_component_round_trip(v.x, len);
    lemma_component_round_trip(v.y, len);
    lemma_component_round_trip(v.z, len);
}

/// Dividing the component `c` by a length `l` that is at least `|c|`, or
/// saturated, and multiplying by `l` again gives `c` up to `l / 2^32 + 1` raw
/// units.
proof fn lemma_component_round_trip(c: Scalar, len: Scalar)
    requires
        0 < len@ <= MAX_RAW,
        abs(c@) <= len@ || len@ == MAX_RAW,
    ensures
        abs(c.over(len).times(len)@ - c@) <= len@ / (ONE_RAW as int) + 1,
{
    let one = ONE_RAW as int;
    let l = len@;
    let m = unit_magnitude(c@, l);
    let u = c.over(len);
    lemma_unit_component(c, len);
    crate::arith::lemma_product_magnitude(u@, l);
    let p = m * l;
    assert(abs(u@ * l) == p) by (nonlinear_arith)
        requires
            abs(u@) == m,
            abs(u@) * abs(l) == abs(u@ * l),
            p == m * l,
            l > 0,
    ;
    let n = p / one;
    assert(0 <= p) by (nonlinear_arith)
        requires
            p == m * l,
            0 <= m,
            0 < l,
    ;
    // n <= |c| and |c| - n <= l / one + 1
    let a = abs(c@);
    let q = l / one;
    assert(n <= a && a - n <= q + 1) by {
        assert(p <= a * one);
        assert(a * one < p + l) by (nonlinear_arith)
            requires
                a * one < (m + 1) * l,
                p == m * l,
        ;
        assert(l < (q + 1) * one);
    }
    assert(u@ * l >= 0 ==> c@ >= 0 || p == 0) by (nonlinear_arith)
        requires
            u@ == (if c@ >= 0 {
                m
            } else {
                -m
            }),
            p == m * l,
            0 <= m,
            0 < l,
    ;
    assert(u@ * l < 0 ==> c@ < 0) by (nonlinear_arith)
        requires
            u@ == (if c@ >= 0 {
                m
            } else {
                -m
            }),
            0 <= m,
            0 < l,
    ;
}

/// A vector has length zero exactly where all its components are zero.
pub proof fn lemma_zero_length(v: Vec3)
    ensures
        v.length_spec()@ == 0 <==> v.norm_square() == 0,
        v.length_spec()@ >= 0,
        v.norm_square() >= 0,
{
    let s = v.norm_square();
    assert(v.x@ * v.x@ >= 0 && v.y@ * v.y@ >= 0 && v.z@ * v.z@ >= 0) by (nonlinear_arith);
    crate::arith::lemma_isqrt_exists(s);
    let l = isqrt(s);
    if l == 0 {
        assert((l + 1) * (l + 1) == 1) by (nonlinear_arith)
            requires
                l == 0,
        ;
    }
}

/// A point inside the unit sphere, once normalised, is either the zero vector
/// or has length one up to rounding: between `1 - 2 * 2^-32` and
/// `1 + 2^-32 * ((2^32 - 1) / l)`, where `l` is the raw length of the point.
pub proof fn lemma_normalized_in_unit_sphere(p: Vec3)
    requires
        p.in_unit_sphere_spec(),
    ensures
        normalized_spec(p) == Vec3::zero_spec() || (ONE_RAW - 2 <= normalized_spec(
            p,
        ).length_spec()@ <= ONE_RAW + (ONE_RAW - 1) / p.length_spec()@),
{
    lemma_zero_length(p);
    if p.length_spec()@ != 0 {
        lemma_unit_sphere_bounds(p);
        lemma_unit_vector_has_unit_length(p);
    }
}

/// Inside the unit sphere the exact sum of squares is below one, and so is
/// the magnitude of every component.
pub proof fn lemma_unit_sphere_bounds(p: Vec3)
    requires
        p.in_unit_sphere_spec(),
    ensures
        0 <= p.norm_square() < ONE_RAW * ONE_RAW,
        abs(p.x@) < ONE_RAW,
        abs(p.y@) < ONE_RAW,
        abs(p.z@) < ONE_RAW,
{
    let s = p.norm_square();
    let one = ONE_RAW as int;
    assert(p.x@ * p.x@ >= 0 && p.y@ * p.y@ >= 0 && p.z@ * p.z@ >= 0) by (nonlinear_arith);
    assert(s < one * one) by {
        if s >= one * one {
            vstd::arithmetic::div_mod::lemma_div_is_ordered(one * one, s, one);
            assert((one * one) / one == one) by (nonlinear_arith)
                requires
                    one == 4294967296,
            ;
        }
    }
    lemma_square_of_product(p.x@, 1);
    lemma_square_of_product(p.y@, 1);
    lemma_square_of_product(p.z@, 1);
    lemma_square_monotone(abs(p.x@), one);
    lemma_square_monotone(abs(p.y@), one);
    lemma_square_monotone(abs(p.z@), one);
}

/// Turning a point of the unit sphere toward `normal` keeps it inside the
/// unit sphere and makes its dot product with `normal` non-negative.
pub proof fn lemma_in_hemisphere(p: Vec3, normal: Vec3)
    requires
        p.in_unit_sphere_spec(),
    ensures
        in_hemisphere_spec(p, normal).in_unit_sphere_spec(),
        in_hemisphere_spec(p, normal).dot_spec(normal)@ >= 0,
{
    lemma_unit_sphere_bounds(p);
    let q = p.negated();
    assert(q.x@ == -p.x@ && q.y@ == -p.y@ && q.z@ == -p.z@);
    assert(q.norm_square() == p.norm_square()) by (nonlinear_arith)
        requires
            q.x@ == -p.x@,
            q.y@ == -p.y@,
            q.z@ == -p.z@,
            q.norm_square() == q.x@ * q.x@ + q.y@ * q.y@ + q.z@ * q.z@,
            p.norm_square() == p.x@ * p.x@ + p.y@ * p.y@ + p.z@ * p.z@,
    ;
    lemma_dot_negated(normal, p);
}

} // verus!
