//! Sine and cosine of angles in degrees, in fixed point.
//!
//! The angle is reduced modulo a full turn and the sine on a half turn is
//! computed with Bhaskara's rational approximation
//! `sin d ~= 4 d (180 - d) / (40500 - d (180 - d))` (for `d` in degrees on
//! `[0, 180]`), which is exact at every multiple of 90 degrees and accurate
//! to about two thousandths elsewhere.  Cosine is the sine shifted by a
//! quarter turn.  Both functions are total and bounded by one unit.

use crate::fx::{Fixed, SCALE};
use vstd::arithmetic::div_mod::{lemma_div_is_ordered, lemma_div_multiples_vanish};
use vstd::prelude::*;

verus! {

/// A full turn, in raw units of degrees.
pub const DEG_FULL: i64 = 360_000_000;

/// A half turn, in raw units of degrees.
pub const DEG_HALF: i64 = 180_000_000;

/// A quarter turn, in raw units of degrees.
pub const DEG_QUARTER: i64 = 90_000_000;

/// An angle reduced to `[0, DEG_FULL)` (the spec `%` is Euclidean, so this
/// holds for negative angles too).
pub open spec fn deg_mod(a: int) -> int {
    a % (DEG_FULL as int)
}

/// Bhaskara's approximation of the sine on `[0, DEG_HALF]`, in raw units.
pub open spec fn sin_half_model(x: int) -> int {
    let t = x * (DEG_HALF - x);
    (4 * t * SCALE) / (40500 * SCALE * SCALE - t)
}

/// The sine of an angle in degrees: the half-turn approximation, negated on
/// the second half of the turn.
pub open spec fn sin_model(a: int) -> int {
    let m = deg_mod(a);
    if m <= DEG_HALF {
        sin_half_model(m)
    } else {
        -sin_half_model(m - DEG_HALF)
    }
}

/// The reduced angle shifted by a quarter turn, staying in `[0, DEG_FULL)`.
pub open spec fn quarter_shift(m: int) -> int {
    if m + DEG_QUARTER < DEG_FULL {
        m + DEG_QUARTER
    } else {
        m + DEG_QUARTER - DEG_FULL
    }
}

/// The cosine of an angle in degrees: the sine a quarter turn ahead.
pub open spec fn cos_model(a: int) -> int {
    let m = quarter_shift(deg_mod(a));
    if m <= DEG_HALF {
        sin_half_model(m)
    } else {
        -sin_half_model(m - DEG_HALF)
    }
}

/// The sine and cosine are exact at the multiples of a quarter turn.
pub proof fn lemma_trig_quarter_turn_values()
    ensures
        sin_model(0) == 0,
        sin_model(DEG_QUARTER as int) == SCALE as int,
        sin_model(DEG_HALF as int) == 0,
        sin_model(-(DEG_QUARTER as int)) == -(SCALE as int),
        cos_model(0) == SCALE as int,
        cos_model(DEG_QUARTER as int) == 0,
        cos_model(DEG_HALF as int) == -(SCALE as int),
        cos_model(-(DEG_QUARTER as int)) == 0,
{
    assert(sin_model(0) == 0 && sin_model(DEG_QUARTER as int) == SCALE as int && sin_model(
        DEG_HALF as int,
    ) == 0 && sin_model(-(DEG_QUARTER as int)) == -(SCALE as int)) by (nonlinear_arith)
        requires
            SCALE == 1_000_000,
            DEG_HALF == 180_000_000,
            DEG_QUARTER == 90_000_000,
            DEG_FULL == 360_000_000,
    ;
    assert(cos_model(0) == SCALE as int && cos_model(DEG_QUARTER as int) == 0 && cos_model(
        DEG_HALF as int,
    ) == -(SCALE as int) && cos_model(-(DEG_QUARTER as int)) == 0) by (nonlinear_arith)
        requires
            SCALE == 1_000_000,
            DEG_HALF == 180_000_000,
            DEG_QUARTER == 90_000_000,
            DEG_FULL == 360_000_000,
    ;
}

/// The cosine of every angle is the sine a quarter turn ahead: the shifted
/// reduction in `cos_model` agrees with reducing the shifted angle.
pub proof fn lemma_cos_is_shifted_sin(a: int)
    ensures
        cos_model(a) == sin_model(a + DEG_QUARTER),
{
    let f = DEG_FULL as int;
    let q = DEG_QUARTER as int;
    let m = a % f;
    vstd::arithmetic::div_mod::lemma_add_mod_noop(a, q, f);
    vstd::arithmetic::div_mod::lemma_small_mod(q as nat, f as nat);
    if m + q < f {
        vstd::arithmetic::div_mod::lemma_small_mod((m + q) as nat, f as nat);
    } else {
        vstd::arithmetic::div_mod::lemma_mod_sub_multiples_vanish(m + q, f);
        vstd::arithmetic::div_mod::lemma_small_mod((m + q - f) as nat, f as nat);
    }
    assert(deg_mod(a + q) == quarter_shift(deg_mod(a)));
}

/// The product `x * (DEG_HALF - x)` on the half turn is bounded by its value
/// at the quarter turn.
proof fn lemma_half_turn_product_bounds(x: int)
    requires
        0 <= x <= DEG_HALF,
    ensures
        0 <= x * (DEG_HALF - x),
        x * (DEG_HALF - x) <= 8100 * (SCALE as int) * (SCALE as int),
{
    assert(0 <= x * (DEG_HALF - x) && x * (DEG_HALF - x) <= 8100 * (SCALE as int) * (
    SCALE as int)) by (nonlinear_arith)
        requires
            0 <= x <= DEG_HALF,
            DEG_HALF == 180_000_000,
            SCALE == 1_000_000,
    ;
}

/// The half-turn sine approximation lies in `[0, SCALE]`.
pub proof fn lemma_sin_half_model_bounds(x: int)
    requires
        0 <= x <= DEG_HALF,
    ensures
        0 <= sin_half_model(x) <= SCALE,
{
    let s = SCALE as int;
    let t = x * (DEG_HALF - x);
    let num = 4 * t * s;
    let den = 40500 * s * s - t;
    lemma_half_turn_product_bounds(x);
    assert(den >= 32400 * s * s);
    assert(num >= 0);
    assert(num <= s * den) by (nonlinear_arith)
        requires
            0 <= t <= 8100 * s * s,
            s == 1_000_000,
            num == 4 * t * s,
            den == 40500 * s * s - t,
    ;
    lemma_div_multiples_vanish(s, den);
    lemma_div_is_ordered(num, s * den, den);
    assert(0 <= num / den) by (nonlinear_arith)
        requires
            0 <= num,
            0 < den,
    ;
}

/// Bhaskara's approximation on `[0, DEG_HALF]`, computed exactly over the
/// integer model.
fn sin_half(x: i64) -> (r: i64)
    requires
        0 <= x <= DEG_HALF,
    ensures
        r == sin_half_model(x as int),
        0 <= r <= SCALE,
{
    proof {
        lemma_half_turn_product_bounds(x as int);
        lemma_sin_half_model_bounds(x as int);
    }
    let t: u128 = (x as u128) * ((DEG_HALF - x) as u128);
    let num: u128 = 4 * t * (SCALE as u128);
    let den: u128 = 40_500u128 * (SCALE as u128) * (SCALE as u128) - t;
    let q: u128 = num / den;
    q as i64
}

/// The sine of an angle in degrees.  Total: every angle is first reduced to
/// one turn.  The result never leaves `[-1, 1]` (in raw units, `[-SCALE,
/// SCALE]`), and is exact at multiples of a quarter turn.
pub fn sin_deg(a: Fixed) -> (r: Fixed)
    ensures
        r@ == sin_model(a@),
        -SCALE <= r@ <= SCALE,
{
    let m: i64 = match a.raw.checked_rem_euclid(DEG_FULL) {
        Some(v) => v,
        None => 0,
    };
    assert(m == deg_mod(a@));
    let raw: i64 = if m <= DEG_HALF {
        sin_half(m)
    } else {
        -sin_half(m - DEG_HALF)
    };
    Fixed { raw }
}

/// The cosine of an angle in degrees: the sine shifted a quarter turn.
/// Total and bounded like `sin_deg`; exact at multiples of a quarter turn.
pub fn cos_deg(a: Fixed) -> (r: Fixed)
    ensures
        r@ == cos_model(a@),
        -SCALE <= r@ <= SCALE,
{
    let m0: i64 = match a.raw.checked_rem_euclid(DEG_FULL) {
        Some(v) => v,
        None => 0,
    };
    assert(m0 == deg_mod(a@));
    let m: i64 = if m0 + DEG_QUARTER < DEG_FULL {
        m0 + DEG_QUARTER
    } else {
        m0 + DEG_QUARTER - DEG_FULL
    };
    assert(m == quarter_shift(deg_mod(a@)));
    let raw: i64 = if m <= DEG_HALF {
        sin_half(m)
    } else {
        -sin_half(m - DEG_HALF)
    };
    Fixed { raw }
}

} // verus!
