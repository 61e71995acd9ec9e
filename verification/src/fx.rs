//! Fixed-point scalars.
//!
//! A `Fixed` stores a signed count of millionths, so `1.0` is `1_000_000`
//! raw units.  Addition and subtraction are exact; multiplication rescales
//! the double-width product by the scale factor, rounding toward zero.  The
//! spec-level model of every operation is an exact function on `int`.

use vstd::arithmetic::div_mod::{lemma_div_is_ordered, lemma_div_multiples_vanish};
use vstd::prelude::*;

verus! {

/// Raw units per 1.0 of scalar value.
pub const SCALE: i64 = 1_000_000;

/// Whether a mathematical integer fits in the raw representation.
pub open spec fn fits(x: int) -> bool {
    i64::MIN <= x <= i64::MAX
}

/// Division rounding toward zero, for a positive divisor.  (The spec-level
/// `/` is Euclidean, which rounds down; executable code rounds quotients of
/// negative values toward zero, as the model does.)
pub open spec fn div_trunc(a: int, b: int) -> int {
    if a >= 0 {
        a / b
    } else {
        -((-a) / b)
    }
}

/// The exact value of a fixed-point product: the integer product of the raw
/// values, scaled back down with rounding toward zero.
pub open spec fn mul_model(a: int, b: int) -> int {
    div_trunc(a * b, SCALE as int)
}

/// A fixed-point scalar; `raw` counts millionths.
#[derive(Clone, Copy, PartialEq, Eq, Structural, Debug)]
pub struct Fixed {
    pub raw: i64,
}

impl View for Fixed {
    type V = int;

    open spec fn view(&self) -> int {
        self.raw as int
    }
}

impl Fixed {
    /// The scalar with the given raw count of millionths.
    pub fn from_raw(raw: i64) -> (r: Fixed)
        ensures
            r@ == raw,
    {
        Fixed { raw }
    }

    /// The scalar zero.
    pub fn zero() -> (r: Fixed)
        ensures
            r@ == 0,
    {
        Fixed { raw: 0 }
    }

    pub fn add(self, other: Fixed) -> (r: Fixed)
        requires
            fits(self@ + other@),
        ensures
            r@ == self@ + other@,
    {
        Fixed { raw: self.raw + other.raw }
    }

    pub fn sub(self, other: Fixed) -> (r: Fixed)
        requires
            fits(self@ - other@),
        ensures
            r@ == self@ - other@,
    {
        Fixed { raw: self.raw - other.raw }
    }

    pub fn neg(self) -> (r: Fixed)
        requires
            fits(-self@),
        ensures
            r@ == -self@,
    {
        Fixed { raw: -self.raw }
    }

    pub fn mul(self, other: Fixed) -> (r: Fixed)
        requires
            fits(mul_model(self@, other@)),
        ensures
            r@ == mul_model(self@, other@),
    {
        proof {
            lemma_i64_product_in_i128(self.raw as int, other.raw as int);
        }
        let p: i128 = (self.raw as i128) * (other.raw as i128);
        let q: i128 = div_trunc_i128(p, SCALE as u128);
        Fixed { raw: q as i64 }
    }
}

/// The product of two `i64` values stays strictly inside the `i128` range.
pub proof fn lemma_i64_product_in_i128(a: int, b: int)
    requires
        i64::MIN <= a <= i64::MAX,
        i64::MIN <= b <= i64::MAX,
    ensures
        -0x4000_0000_0000_0000_0000_0000_0000_0000 <= a * b
            <= 0x4000_0000_0000_0000_0000_0000_0000_0000,
{
    assert(-0x4000_0000_0000_0000_0000_0000_0000_0000 <= a * b
        <= 0x4000_0000_0000_0000_0000_0000_0000_0000) by (nonlinear_arith)
        requires
            -0x8000_0000_0000_0000 <= a <= 0x8000_0000_0000_0000,
            -0x8000_0000_0000_0000 <= b <= 0x8000_0000_0000_0000,
    ;
}

/// Quotients of nonnegative values do not exceed the dividend.
proof fn lemma_div_le_dividend(a: int, b: int)
    requires
        0 <= a,
        1 <= b,
    ensures
        0 <= a / b <= a,
{
    assert(0 <= a / b <= a) by (nonlinear_arith)
        requires
            0 <= a,
            1 <= b,
    ;
}

/// Truncating signed division of an `i128` by a positive divisor.
pub fn div_trunc_i128(a: i128, b: u128) -> (r: i128)
    requires
        -i128::MAX <= a,
        0 < b <= i128::MAX,
    ensures
        r == div_trunc(a as int, b as int),
        -i128::MAX <= r <= i128::MAX,
{
    if a >= 0 {
        let q: u128 = (a as u128) / b;
        proof {
            lemma_div_le_dividend(a as int, b as int);
        }
        q as i128
    } else {
        let m: u128 = (-a) as u128;
        let q: u128 = m / b;
        proof {
            lemma_div_le_dividend(m as int, b as int);
        }
        -(q as i128)
    }
}

/// Rounding toward zero is an odd function of the dividend.
pub proof fn lemma_div_trunc_neg(a: int, b: int)
    requires
        0 < b,
    ensures
        div_trunc(-a, b) == -div_trunc(a, b),
{
    if a == 0 {
        assert(div_trunc(0int, b) == 0);
    }
}

/// Negating one factor negates the fixed-point product exactly.
pub proof fn lemma_mul_model_neg_left(a: int, b: int)
    ensures
        mul_model(-a, b) == -mul_model(a, b),
{
    assert((-a) * b == -(a * b)) by (nonlinear_arith);
    lemma_div_trunc_neg(a * b, SCALE as int);
}

/// A fixed-point product of values bounded by `ba` and `bb` raw units is
/// bounded by their product scaled down.
pub proof fn lemma_mul_model_bound(a: int, b: int, ba: int, bb: int)
    requires
        -ba <= a <= ba,
        -bb <= b <= bb,
        0 <= ba,
        0 <= bb,
    ensures
        -div_trunc(ba * bb, SCALE as int) <= mul_model(a, b) <= div_trunc(ba * bb, SCALE as int),
{
    let s = SCALE as int;
    assert(-(ba * bb) <= a * b <= ba * bb) by (nonlinear_arith)
        requires
            -ba <= a <= ba,
            -bb <= b <= bb,
            0 <= ba,
            0 <= bb,
    ;
    let p = a * b;
    let top = ba * bb;
    assert(0 <= top);
    if p >= 0 {
        lemma_div_is_ordered(p, top, s);
        lemma_div_le_dividend(p, s);
    } else {
        lemma_div_is_ordered(-p, top, s);
        lemma_div_le_dividend(-p, s);
    }
}

/// Truncating division evaluates exactly on exact multiples of the divisor.
pub proof fn lemma_div_trunc_eval(a: int, b: int, q: int)
    requires
        0 < b,
        a == q * b,
    ensures
        div_trunc(a, b) == q,
{
    if a >= 0 {
        assert(0 <= q) by (nonlinear_arith)
            requires
                0 <= a,
                0 < b,
                a == q * b,
        ;
        lemma_div_multiples_vanish(q, b);
        assert(q * b == b * q) by (nonlinear_arith);
    } else {
        assert(q < 0) by (nonlinear_arith)
            requires
                a < 0,
                0 < b,
                a == q * b,
        ;
        assert(-a == (-q) * b) by (nonlinear_arith)
            requires
                a == q * b,
        ;
        lemma_div_multiples_vanish(-q, b);
        assert((-q) * b == b * (-q)) by (nonlinear_arith);
    }
}

/// A zero factor makes the fixed-point product zero.
pub proof fn lemma_mul_model_zero(x: int)
    ensures
        mul_model(0, x) == 0,
        mul_model(x, 0) == 0,
{
    assert(0 * x == 0) by (nonlinear_arith);
    assert(x * 0 == 0) by (nonlinear_arith);
    lemma_div_trunc_eval(0 * x, SCALE as int, 0);
    lemma_div_trunc_eval(x * 0, SCALE as int, 0);
}

/// Fixed-point multiplication by one (in raw units, by `SCALE`) is exact.
pub proof fn lemma_mul_model_scale(a: int)
    ensures
        mul_model(a, SCALE as int) == a,
        mul_model(SCALE as int, a) == a,
{
    let s = SCALE as int;
    if a >= 0 {
        lemma_div_multiples_vanish(a, s);
        assert(a * s == s * a) by (nonlinear_arith);
    } else {
        lemma_div_multiples_vanish(-a, s);
        assert((-a) * s == -(a * s)) by (nonlinear_arith);
        assert(a * s == s * a) by (nonlinear_arith);
    }
}

} // verus!
