//! Three-component vectors of fixed-point scalars.
//!
//! The spec model of a vector is a triple of mathematical integers (the raw
//! values).  Componentwise operations, dot and cross products follow the
//! fixed-point multiplication model; `normalize` rescales a vector to unit
//! length (`SCALE` raw units) using an integer square root.

use crate::fx::{div_trunc, fits, mul_model, Fixed, SCALE};
use vstd::arithmetic::div_mod::{lemma_div_is_ordered, lemma_div_multiples_vanish};
use vstd::prelude::*;

verus! {

/// A vector of three fixed-point scalars.
#[derive(Clone, Copy, PartialEq, Eq, Structural, Debug)]
pub struct Vec3 {
    pub x: Fixed,
    pub y: Fixed,
    pub z: Fixed,
}

impl View for Vec3 {
    type V = (int, int, int);

    open spec fn view(&self) -> (int, int, int) {
        (self.x@, self.y@, self.z@)
    }
}

pub open spec fn add3(a: (int, int, int), b: (int, int, int)) -> (int, int, int) {
    (a.0 + b.0, a.1 + b.1, a.2 + b.2)
}

pub open spec fn sub3(a: (int, int, int), b: (int, int, int)) -> (int, int, int) {
    (a.0 - b.0, a.1 - b.1, a.2 - b.2)
}

pub open spec fn neg3(a: (int, int, int)) -> (int, int, int) {
    (-a.0, -a.1, -a.2)
}

/// Each component multiplied by the fixed-point scalar `k`.
pub open spec fn scale3(a: (int, int, int), k: int) -> (int, int, int) {
    (mul_model(a.0, k), mul_model(a.1, k), mul_model(a.2, k))
}

/// Fixed-point dot product: the sum of the componentwise products.
pub open spec fn dot3(a: (int, int, int), b: (int, int, int)) -> int {
    mul_model(a.0, b.0) + mul_model(a.1, b.1) + mul_model(a.2, b.2)
}

/// Fixed-point cross product.
pub open spec fn cross3(a: (int, int, int), b: (int, int, int)) -> (int, int, int) {
    (
        mul_model(a.1, b.2) - mul_model(a.2, b.1),
        mul_model(a.2, b.0) - mul_model(a.0, b.2),
        mul_model(a.0, b.1) - mul_model(a.1, b.0),
    )
}

/// Exact (unscaled) dot product of integer triples, for stating laws about
/// ideal, error-free bases.
pub open spec fn dot_exact(a: (int, int, int), b: (int, int, int)) -> int {
    a.0 * b.0 + a.1 * b.1 + a.2 * b.2
}

/// Exact (unscaled) cross product of integer triples.
pub open spec fn cross_exact(a: (int, int, int), b: (int, int, int)) -> (int, int, int) {
    (a.1 * b.2 - a.2 * b.1, a.2 * b.0 - a.0 * b.2, a.0 * b.1 - a.1 * b.0)
}

/// Exact scaling of an integer triple.
pub open spec fn scale_exact(a: (int, int, int), k: int) -> (int, int, int) {
    (a.0 * k, a.1 * k, a.2 * k)
}

pub open spec fn fits3(v: (int, int, int)) -> bool {
    fits(v.0) && fits(v.1) && fits(v.2)
}

/// Every component bounded by `b` raw units in magnitude.
pub open spec fn bounded3(v: (int, int, int), b: int) -> bool {
    -b <= v.0 <= b && -b <= v.1 <= b && -b <= v.2 <= b
}

/// The squared Euclidean length of a triple, in raw units squared.
pub open spec fn norm_sq3(v: (int, int, int)) -> int {
    v.0 * v.0 + v.1 * v.1 + v.2 * v.2
}

pub open spec fn is_sqrt_floor(n: int, r: int) -> bool {
    0 <= r && r * r <= n && n < (r + 1) * (r + 1)
}

/// The integer square root: the greatest `r` with `r * r <= n` (and zero
/// for negative arguments).
pub open spec fn sqrt_floor(n: int) -> int
    decreases n,
{
    if n <= 0 {
        0
    } else {
        let p = sqrt_floor(n - 1);
        if (p + 1) * (p + 1) <= n {
            p + 1
        } else {
            p
        }
    }
}

/// For nonnegative arguments, `sqrt_floor` satisfies its characterization.
pub proof fn lemma_sqrt_floor_props(n: int)
    requires
        0 <= n,
    ensures
        is_sqrt_floor(n, sqrt_floor(n)),
    decreases n,
{
    if n == 0 {
    } else {
        lemma_sqrt_floor_props(n - 1);
        let p = sqrt_floor(n - 1);
        if (p + 1) * (p + 1) <= n {
            assert((p + 1 + 1) * (p + 1 + 1) > n) by (nonlinear_arith)
                requires
                    0 <= p,
                    n - 1 < (p + 1) * (p + 1),
                    (p + 1) * (p + 1) <= n,
            ;
        }
    }
}

/// The integer square root is characterized by `is_sqrt_floor`.
pub proof fn lemma_sqrt_floor(n: int, r: int)
    requires
        is_sqrt_floor(n, r),
    ensures
        sqrt_floor(n) == r,
{
    lemma_sqrt_floor_props(n);
    let r2 = sqrt_floor(n);
    if r2 < r {
        assert((r2 + 1) * (r2 + 1) <= r * r) by (nonlinear_arith)
            requires
                0 <= r2 < r,
        ;
    }
    if r < r2 {
        assert((r + 1) * (r + 1) <= r2 * r2) by (nonlinear_arith)
            requires
                0 <= r < r2,
        ;
    }
}

/// A normalized vector never has a component of more than one unit.
pub proof fn lemma_normalize_model_bounded(v: (int, int, int))
    ensures
        bounded3(normalize_model(v), SCALE as int),
{
    let n = norm_sq3(v);
    assert(0 <= v.0 * v.0 + v.1 * v.1 + v.2 * v.2) by (nonlinear_arith);
    lemma_sqrt_floor_props(n);
    let len = sqrt_floor(n);
    if len != 0 {
        lemma_component_le_sqrt(v, v.0, len);
        lemma_component_le_sqrt(v, v.1, len);
        lemma_component_le_sqrt(v, v.2, len);
        lemma_scaled_quotient_bounded(v.0, len);
        lemma_scaled_quotient_bounded(v.1, len);
        lemma_scaled_quotient_bounded(v.2, len);
    }
}

/// The result of normalizing: the zero triple stays zero; otherwise each
/// component is rescaled by `SCALE / length` with truncation toward zero.
pub open spec fn normalize_model(v: (int, int, int)) -> (int, int, int) {
    let len = sqrt_floor(norm_sq3(v));
    if len == 0 {
        (0, 0, 0)
    } else {
        (
            div_trunc(v.0 * SCALE, len),
            div_trunc(v.1 * SCALE, len),
            div_trunc(v.2 * SCALE, len),
        )
    }
}

/// The integer square root of a `u128`, by binary search.
pub fn isqrt_u128(n: u128) -> (r: u128)
    ensures
        is_sqrt_floor(n as int, r as int),
        r == sqrt_floor(n as int),
        r <= u64::MAX,
{
    let mut lo: u128 = 0;
    let mut hi: u128 = u64::MAX as u128;
    proof {
        assert((hi + 1) * (hi + 1) > u128::MAX) by (nonlinear_arith)
            requires
                hi == u64::MAX,
        ;
    }
    while lo < hi
        invariant
            0 <= lo <= hi <= u64::MAX,
            lo * lo <= n,
            n < (hi + 1) * (hi + 1),
        decreases hi - lo,
    {
        let mid: u128 = lo + (hi - lo + 1) / 2;
        proof {
            assert(lo < mid <= hi);
            assert(mid * mid <= u128::MAX) by (nonlinear_arith)
                requires
                    0 <= mid <= u64::MAX,
            ;
        }
        if mid * mid <= n {
            lo = mid;
        } else {
            hi = mid - 1;
        }
    }
    proof {
        lemma_sqrt_floor(n as int, lo as int);
    }
    lo
}

/// The square of an `i64`, as an unsigned double-width value.
fn square_u128(a: i64) -> (r: u128)
    ensures
        r == (a as int) * (a as int),
        r <= 0x4000_0000_0000_0000_0000_0000_0000_0000,
{
    proof {
        assert(0 <= (a as int) * (a as int) <= 0x4000_0000_0000_0000_0000_0000_0000_0000)
            by (nonlinear_arith)
            requires
                -0x8000_0000_0000_0000 <= a as int <= 0x8000_0000_0000_0000,
        ;
    }
    let p: i128 = (a as i128) * (a as i128);
    p as u128
}

/// Quotients of nonnegative values do not exceed the dividend.
proof fn lemma_div_le_dividend(a: int, b: int)
    requires
        0 <= a,
        1 <= b,
    ensures
        0 <= a / b <= a,
{
    assert(0 <= a / b <= a) by (nonlinear_arith)
        requires
            0 <= a,
            1 <= b,
    ;
}

impl Vec3 {
    pub fn new(x: Fixed, y: Fixed, z: Fixed) -> (r: Vec3)
        ensures
            r@ == (x@, y@, z@),
    {
        Vec3 { x, y, z }
    }

    /// The zero vector.
    pub fn zero() -> (r: Vec3)
        ensures
            r@ == (0int, 0int, 0int),
    {
        Vec3 { x: Fixed::zero(), y: Fixed::zero(), z: Fixed::zero() }
    }

    pub fn add(self, other: Vec3) -> (r: Vec3)
        requires
            fits3(add3(self@, other@)),
        ensures
            r@ == add3(self@, other@),
    {
        Vec3 { x: self.x.add(other.x), y: self.y.add(other.y), z: self.z.add(other.z) }
    }

    pub fn sub(self, other: Vec3) -> (r: Vec3)
        requires
            fits3(sub3(self@, other@)),
        ensures
            r@ == sub3(self@, other@),
    {
        Vec3 { x: self.x.sub(other.x), y: self.y.sub(other.y), z: self.z.sub(other.z) }
    }

    pub fn neg(self) -> (r: Vec3)
        requires
            fits3(neg3(self@)),
        ensures
            r@ == neg3(self@),
    {
        Vec3 { x: self.x.neg(), y: self.y.neg(), z: self.z.neg() }
    }

    /// Each component multiplied by the scalar `k`.
    pub fn scale(self, k: Fixed) -> (r: Vec3)
        requires
            fits3(scale3(self@, k@)),
        ensures
            r@ == scale3(self@, k@),
    {
        Vec3 { x: self.x.mul(k), y: self.y.mul(k), z: self.z.mul(k) }
    }

    /// Fixed-point dot product.
    pub fn dot(self, other: Vec3) -> (r: Fixed)
        requires
            fits(mul_model(self@.0, other@.0)),
            fits(mul_model(self@.1, other@.1)),
            fits(mul_model(self@.2, other@.2)),
            fits(mul_model(self@.0, other@.0) + mul_model(self@.1, other@.1)),
            fits(dot3(self@, other@)),
        ensures
            r@ == dot3(self@, other@),
    {
        self.x.mul(other.x).add(self.y.mul(other.y)).add(self.z.mul(other.z))
    }

    /// Fixed-point cross product.
    pub fn cross(self, other: Vec3) -> (r: Vec3)
        requires
            fits(mul_model(self@.1, other@.2)),
            fits(mul_model(self@.2, other@.1)),
            fits(mul_model(self@.2, other@.0)),
            fits(mul_model(self@.0, other@.2)),
            fits(mul_model(self@.0, other@.1)),
            fits(mul_model(self@.1, other@.0)),
            fits3(cross3(self@, other@)),
        ensures
            r@ == cross3(self@, other@),
    {
        Vec3 {
            x: self.y.mul(other.z).sub(self.z.mul(other.y)),
            y: self.z.mul(other.x).sub(self.x.mul(other.z)),
            z: self.x.mul(other.y).sub(self.y.mul(other.x)),
        }
    }

    /// Rescale to unit length (`SCALE` raw units), rounding each component
    /// toward zero; the zero vector is returned unchanged.  The result's
    /// components never exceed one unit in magnitude.
    pub fn normalize(self) -> (r: Vec3)
        ensures
            r@ == normalize_model(self@),
            bounded3(r@, SCALE as int),
    {
        let xs = square_u128(self.x.raw);
        let ys = square_u128(self.y.raw);
        let zs = square_u128(self.z.raw);
        let n: u128 = xs + ys + zs;
        assert(n == norm_sq3(self@));
        let len: u128 = isqrt_u128(n);
        if len == 0 {
            assert(normalize_model(self@) == (0int, 0int, 0int));
            Vec3::zero()
        } else {
            Vec3 {
                x: normalize_component(self.x.raw, len, Ghost(self@)),
                y: normalize_component(self.y.raw, len, Ghost(self@)),
                z: normalize_component(self.z.raw, len, Ghost(self@)),
            }
        }
    }
}

/// One component of a normalized vector: `a * SCALE / len`, truncated.
fn normalize_component(a: i64, len: u128, v: Ghost<(int, int, int)>) -> (r: Fixed)
    requires
        0 < len <= u64::MAX,
        is_sqrt_floor(norm_sq3(v@), len as int),
        a == v@.0 || a == v@.1 || a == v@.2,
    ensures
        r@ == div_trunc(a * SCALE, len as int),
        -SCALE <= r@ <= SCALE,
{
    proof {
        lemma_component_le_sqrt(v@, a as int, len as int);
        lemma_i64_scale_in_i128(a as int);
    }
    let num: i128 = (a as i128) * (SCALE as i128);
    let q: i128 = crate::fx::div_trunc_i128(num, len);
    proof {
        lemma_scaled_quotient_bounded(a as int, len as int);
    }
    Fixed { raw: q as i64 }
}

/// A vector component is bounded in magnitude by the floor square root of
/// the squared norm.
proof fn lemma_component_le_sqrt(v: (int, int, int), a: int, len: int)
    requires
        is_sqrt_floor(norm_sq3(v), len),
        a == v.0 || a == v.1 || a == v.2,
    ensures
        -len <= a <= len,
{
    assert(a * a <= norm_sq3(v)) by (nonlinear_arith)
        requires
            a == v.0 || a == v.1 || a == v.2,
    ;
    assert(-len <= a <= len) by (nonlinear_arith)
        requires
            a * a <= norm_sq3(v),
            norm_sq3(v) < (len + 1) * (len + 1),
            0 <= len,
    ;
}

proof fn lemma_i64_scale_in_i128(a: int)
    requires
        i64::MIN <= a <= i64::MAX,
    ensures
        -0x4000_0000_0000_0000_0000_0000_0000_0000 <= a * SCALE
            <= 0x4000_0000_0000_0000_0000_0000_0000_0000,
{
    crate::fx::lemma_i64_product_in_i128(a, SCALE as int);
}

/// With `|a| <= len`, the truncated quotient `a * SCALE / len` stays within
/// one unit.
proof fn lemma_scaled_quotient_bounded(a: int, len: int)
    requires
        0 < len,
        -len <= a <= len,
    ensures
        -SCALE <= div_trunc(a * SCALE, len) <= SCALE,
{
    let s = SCALE as int;
    assert(-(len * s) <= a * s <= len * s) by (nonlinear_arith)
        requires
            -len <= a <= len,
            0 < s,
            0 < len,
    ;
    lemma_div_multiples_vanish(s, len);
    let p = a * s;
    if p >= 0 {
        lemma_div_is_ordered(p, len * s, len);
        lemma_div_le_dividend(p, len);
    } else {
        lemma_div_is_ordered(-p, len * s, len);
        lemma_div_le_dividend(-p, len);
    }
}

} // verus!
