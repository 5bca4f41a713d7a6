//! Integer arithmetic underneath the fixed-point numbers: saturation,
//! division rounded toward zero and integer square roots.

use vstd::prelude::*;

verus! {

/// Raw representation of the number one: `2^32`.
pub const ONE_RAW: i64 = 0x1_0000_0000;

/// Largest raw magnitude: numbers range over `[-MAX_RAW, MAX_RAW]`.
pub const MAX_RAW: i64 = 0x7fff_ffff_ffff_ffff;

/// Absolute value of an integer.
pub open spec fn abs(x: int) -> int {
    if x < 0 {
        -x
    } else {
        x
    }
}

/// `x` clamped into the symmetric range `[-MAX_RAW, MAX_RAW]`.
pub open spec fn saturate(x: int) -> int {
    if x > MAX_RAW {
        MAX_RAW as int
    } else if x < -MAX_RAW {
        -MAX_RAW
    } else {
        x
    }
}

/// Quotient of `n` by `d`, rounded toward zero.
pub open spec fn div_toward_zero(n: int, d: int) -> int
    recommends
        d != 0,
{
    if (n >= 0) == (d > 0) {
        abs(n) / abs(d)
    } else {
        -(abs(n) / abs(d))
    }
}

/// A product of two raw values brought back to the raw scale: divided by
/// `2^32` toward zero, then saturated.
pub open spec fn rescale(p: int) -> int {
    saturate(div_toward_zero(p, ONE_RAW as int))
}

/// `r` is the integer square root of `n`: the largest natural number whose
/// square does not exceed `n`.
pub open spec fn is_isqrt(r: int, n: int) -> bool {
    0 <= r && r * r <= n && n < (r + 1) * (r + 1)
}

/// The integer square root of `n`, the floor of its real square root; zero for
/// negative `n`.
pub open spec fn isqrt(n: int) -> int {
    if n <= 0 {
        0
    } else {
        choose|r: int| is_isqrt(r, n)
    }
}

/// Every natural number has an integer square root.
pub proof fn lemma_isqrt_exists(n: int)
    requires
        0 <= n,
    ensures
        is_isqrt(isqrt(n), n),
    decreases n,
{
    if n == 0 {
        assert(is_isqrt(0, 0));
    } else {
        lemma_isqrt_exists(n - 1);
        let r = isqrt(n - 1);
        if (r + 1) * (r + 1) <= n {
            assert(n < (r + 2) * (r + 2)) by (nonlinear_arith)
                requires
                    0 <= r,
                    n - 1 < (r + 1) * (r + 1),
            ;
            assert(is_isqrt(r + 1, n));
        } else {
            assert(r * r <= n);
            assert(is_isqrt(r, n));
        }
    }
}

/// The integer square root is unique.
pub proof fn lemma_isqrt_unique(r: int, n: int)
    requires
        is_isqrt(r, n),
    ensures
        r == isqrt(n),
{
    assert(0 <= n) by (nonlinear_arith)
        requires
            r * r <= n,
    ;
    lemma_isqrt_exists(n);
    let s = isqrt(n);
    if n == 0 {
        assert(r == 0) by (nonlinear_arith)
            requires
                0 <= r,
                r * r <= 0,
        ;
    } else {
        assert(r == s) by (nonlinear_arith)
            requires
                0 <= r,
                0 <= s,
                r * r <= n,
                n < (r + 1) * (r + 1),
                s * s <= n,
                n < (s + 1) * (s + 1),
        ;
    }
}

/// The integer square root is monotone.
pub proof fn lemma_isqrt_monotone(m: int, n: int)
    requires
        0 <= m <= n,
    ensures
        isqrt(m) <= isqrt(n),
{
    lemma_isqrt_exists(m);
    lemma_isqrt_exists(n);
    let r = isqrt(m);
    let s = isqrt(n);
    assert(r <= s) by (nonlinear_arith)
        requires
            0 <= r,
            0 <= s,
            r * r <= m,
            m <= n,
            n < (s + 1) * (s + 1),
    ;
}

/// Magnitude of a signed 64-bit integer.
pub fn magnitude(x: i64) -> (m: u64)
    ensures
        m == abs(x as int),
{
    if x >= 0 {
        x as u64
    } else if x == i64::MIN {
        0x8000_0000_0000_0000u64
    } else {
        (-x) as u64
    }
}

/// The saturated raw value with the given sign and magnitude.
pub fn saturating_raw(negative: bool, mag: u128) -> (r: i64)
    ensures
        r == saturate(
            if negative {
                -(mag as int)
            } else {
                mag as int
            },
        ),
{
    let m: i64 = if mag > 0x7fff_ffff_ffff_ffffu128 {
        MAX_RAW
    } else {
        mag as i64
    };
    if negative {
        -m
    } else {
        m
    }
}

/// Integer square root of a 128-bit natural number, by bisection.
pub fn isqrt_u128(n: u128) -> (r: u64)
    ensures
        r == isqrt(n as int),
{
    let mut lo: u128 = 0;
    let mut hi: u128 = 0x1_0000_0000_0000_0000u128;
    assert(n < hi * hi) by (nonlinear_arith)
        requires
            hi == 0x1_0000_0000_0000_0000u128,
            n <= u128::MAX,
    ;
    while hi - lo > 1
        invariant
            lo < hi <= 0x1_0000_0000_0000_0000u128,
            lo * lo <= n,
            n < hi * hi,
        decreases hi - lo,
    {
        let mid: u128 = lo + (hi - lo) / 2;
        assert(mid * mid <= 0xffff_ffff_ffff_ffff * 0xffff_ffff_ffff_ffff) by (nonlinear_arith)
            requires
                0 <= mid <= 0xffff_ffff_ffff_ffff,
        ;
        if mid * mid <= n {
            lo = mid;
        } else {
            hi = mid;
        }
    }
    proof {
        assert(hi == lo + 1);
        lemma_isqrt_unique(lo as int, n as int);
    }
    lo as u64
}

/// A product of two 64-bit integers as a sign and a magnitude.
pub struct Product {
    pub negative: bool,
    pub mag: u128,
}

impl Product {
    /// The integer that the pair stands for.
    pub open spec fn value(self) -> int {
        if self.negative {
            -(self.mag as int)
        } else {
            self.mag as int
        }
    }

    /// The exact product `a * b`.
    pub fn of(a: i64, b: i64) -> (p: Product)
        ensures
            p.value() == a * b,
            p.mag <= 0x4000_0000_0000_0000_0000_0000_0000_0000,
    {
        let ma: u128 = magnitude(a) as u128;
        let mb: u128 = magnitude(b) as u128;
        proof {
            lemma_product_magnitude(a as int, b as int);
            assert(ma * mb <= 0x8000_0000_0000_0000 * 0x8000_0000_0000_0000) by (nonlinear_arith)
                requires
                    0 <= ma <= 0x8000_0000_0000_0000,
                    0 <= mb <= 0x8000_0000_0000_0000,
            ;
        }
        Product { negative: (a < 0) != (b < 0), mag: ma * mb }
    }
}

/// The magnitude of a product is the product of the magnitudes, and its sign
/// follows from the signs of the factors.
pub proof fn lemma_product_magnitude(a: int, b: int)
    ensures
        abs(a) * abs(b) == abs(a * b),
        (a < 0) != (b < 0) ==> a * b <= 0,
        (a < 0) == (b < 0) ==> a * b >= 0,
{
    assert(abs(a) * abs(b) == abs(a * b) && ((a < 0) != (b < 0) ==> a * b <= 0) && ((a < 0) == (b
        < 0) ==> a * b >= 0)) by (nonlinear_arith);
}

/// `pos - neg` brought back to the raw scale.
fn rescaled_balance(pos: u128, neg: u128) -> (r: i64)
    ensures
        r == rescale(pos - neg),
{
    if pos >= neg {
        saturating_raw(false, (pos - neg) / 0x1_0000_0000u128)
    } else {
        saturating_raw(true, (neg - pos) / 0x1_0000_0000u128)
    }
}

/// The product `a * b` brought back to the raw scale.
pub fn rescaled_product(a: i64, b: i64) -> (r: i64)
    ensures
        r == rescale(a * b),
{
    let p = Product::of(a, b);
    if p.negative {
        rescaled_balance(0, p.mag)
    } else {
        rescaled_balance(p.mag, 0)
    }
}

/// The difference of products `a * b - c * d` brought back to the raw scale,
/// rounded once.
pub fn rescaled_difference(a: i64, b: i64, c: i64, d: i64) -> (r: i64)
    ensures
        r == rescale(a * b - c * d),
{
    let p = Product::of(a, b);
    let q = Product::of(c, d);
    let mut pos: u128 = 0;
    let mut neg: u128 = 0;
    if p.negative {
        neg = neg + p.mag;
    } else {
        pos = pos + p.mag;
    }
    if q.negative {
        pos = pos + q.mag;
    } else {
        neg = neg + q.mag;
    }
    rescaled_balance(pos, neg)
}

/// The sum of products `a0 * b0 + a1 * b1 + a2 * b2` brought back to the raw
/// scale, rounded once.
pub fn rescaled_sum3(a0: i64, b0: i64, a1: i64, b1: i64, a2: i64, b2: i64) -> (r: i64)
    ensures
        r == rescale(a0 * b0 + a1 * b1 + a2 * b2),
{
    let first = Product::of(a0, b0);
    let second = Product::of(a1, b1);
    let third = Product::of(a2, b2);
    let mut pos: u128 = 0;
    let mut neg: u128 = 0;
    if first.negative {
        neg = neg + first.mag;
    } else {
        pos = pos + first.mag;
    }
    if second.negative {
        neg = neg + second.mag;
    } else {
        pos = pos + second.mag;
    }
    if third.negative {
        neg = neg + third.mag;
    } else {
        pos = pos + third.mag;
    }
    rescaled_balance(pos, neg)
}

/// The quotient `a / b` of two raw values on the raw scale: `a * 2^32`
/// divided by `b` toward zero, then saturated.
pub fn scaled_quotient(a: i64, b: i64) -> (r: i64)
    requires
        b != 0,
    ensures
        r == saturate(div_toward_zero(a * ONE_RAW, b as int)),
{
    let ma: u128 = magnitude(a) as u128;
    let mb: u128 = magnitude(b) as u128;
    let q: u128 = (ma * 0x1_0000_0000u128) / mb;
    saturating_raw((a < 0) != (b < 0), q)
}

/// The square root of a raw value on the raw scale: the integer square root
/// of `a * 2^32`.
pub fn scaled_root(a: i64) -> (r: i64)
    requires
        0 <= a,
    ensures
        r == isqrt(a * ONE_RAW),
{
    let n: u128 = (a as u128) * 0x1_0000_0000u128;
    let r = isqrt_u128(n);
    proof {
        lemma_isqrt_exists(n as int);
        assert(r < 0x1_0000_0000_0000) by (nonlinear_arith)
            requires
                0 <= r,
                r * r <= n,
                n < 0x1_0000_0000_0000 * 0x1_0000_0000_0000,
        ;
    }
    r as i64
}

/// The Euclidean norm of three raw values: the integer square root of the
/// sum of their squares, saturated.
pub fn norm3(x: i64, y: i64, z: i64) -> (r: i64)
    ensures
        r == saturate(isqrt(x * x + y * y + z * z)),
{
    let px = Product::of(x, x);
    let py = Product::of(y, y);
    let pz = Product::of(z, z);
    proof {
        lemma_product_magnitude(x as int, x as int);
        lemma_product_magnitude(y as int, y as int);
        lemma_product_magnitude(z as int, z as int);
    }
    let n: u128 = px.mag + py.mag + pz.mag;
    let root = isqrt_u128(n);
    saturating_raw(false, root as u128)
}

} // verus!
