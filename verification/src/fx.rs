//! Fixed-point scalars.
//!
//! Coordinates, volumes, frequencies, angles and times are `i64` values
//! holding millionths: `1_000_000` stands for `1.0`.  All operations are
//! total: products and sums saturate at the `i64` range, and quotients
//! truncate toward zero, mirroring how the corresponding real operations
//! round.

use vstd::prelude::*;
use vstd::arithmetic::div_mod::{lemma_fundamental_div_mod, lemma_fundamental_div_mod_converse};

verus! {

/// A fixed-point scalar: an `i64` holding millionths.
pub type Fx = i64;

/// The fixed-point representation of `1.0`.
pub const FX_ONE: i64 = 1_000_000;

/// The fixed-point representation of `0.5`.
pub const FX_HALF: i64 = 500_000;

/// The fixed-point representation of `0.25`.
pub const FX_QUARTER: i64 = 250_000;

/// The fixed-point representation of one full turn in radians (2*pi).
pub const FX_TAU: i64 = 6_283_185;

/// Saturation of an unbounded integer to the `i64` range.
pub open spec fn sat64(v: int) -> int {
    if v < i64::MIN as int {
        i64::MIN as int
    } else if v > i64::MAX as int {
        i64::MAX as int
    } else {
        v
    }
}

/// Magnitude of an integer.
pub open spec fn abs_int(v: int) -> int {
    if v < 0 {
        -v
    } else {
        v
    }
}

/// Quotient truncated toward zero, for a positive divisor.
pub open spec fn div_tz(v: int, d: int) -> int
    recommends
        d > 0,
{
    if v >= 0 {
        v / d
    } else {
        -((-v) / d)
    }
}

/// Fixed-point product: `a * b / FX_ONE`, truncated toward zero, saturated.
pub open spec fn fx_mul_spec(a: int, b: int) -> int {
    sat64(div_tz(a * b, FX_ONE as int))
}

/// Saturating sum.
pub open spec fn fx_add_spec(a: int, b: int) -> int {
    sat64(a + b)
}

/// Saturating difference.
pub open spec fn fx_sub_spec(a: int, b: int) -> int {
    sat64(a - b)
}

/// Saturating negation.
pub open spec fn fx_neg_spec(a: int) -> int {
    sat64(-a)
}

/// Half of a value, truncated toward zero.
pub open spec fn fx_half_spec(a: int) -> int {
    div_tz(a, 2)
}

/// Saturates a wide intermediate value back to `i64`.
pub(crate) fn sat_i128(v: i128) -> (r: i64)
    ensures
        r as int == sat64(v as int),
{
    if v < i64::MIN as i128 {
        i64::MIN
    } else if v > i64::MAX as i128 {
        i64::MAX
    } else {
        v as i64
    }
}

/// Saturation never grows a magnitude.
pub proof fn lemma_sat64_contract(v: int)
    ensures
        abs_int(sat64(v)) <= abs_int(v),
{
}

/// A factor within `[-1, 1]` never grows a magnitude.
pub proof fn lemma_fx_mul_contract(a: int, b: int)
    requires
        -FX_ONE <= b <= FX_ONE,
    ensures
        abs_int(fx_mul_spec(a, b)) <= abs_int(a),
{
    assert(abs_int(a * b) == abs_int(a) * abs_int(b) && abs_int(a) * abs_int(b) <= abs_int(a)
        * (FX_ONE as int)) by (nonlinear_arith)
        requires
            -FX_ONE <= b <= FX_ONE,
    ;
    let v = a * b;
    let q = div_tz(v, FX_ONE as int);
    if v >= 0 {
        vstd::arithmetic::div_mod::lemma_div_is_ordered(v, abs_int(a) * (FX_ONE as int),
            FX_ONE as int);
        vstd::arithmetic::div_mod::lemma_div_multiples_vanish(abs_int(a), FX_ONE as int);
        vstd::arithmetic::div_mod::lemma_div_pos_is_pos(v, FX_ONE as int);
    } else {
        vstd::arithmetic::div_mod::lemma_div_is_ordered(-v, abs_int(a) * (FX_ONE as int),
            FX_ONE as int);
        vstd::arithmetic::div_mod::lemma_div_multiples_vanish(abs_int(a), FX_ONE as int);
        vstd::arithmetic::div_mod::lemma_div_pos_is_pos(-v, FX_ONE as int);
    }
    lemma_sat64_contract(q);
}

/// A factor in `[0, FX_ONE]` scales a nonnegative span to within the span.
pub proof fn lemma_scale_in_range(n: int, span: int)
    requires
        0 <= n <= FX_ONE,
        0 <= span,
    ensures
        0 <= div_tz(n * span, FX_ONE as int) <= span,
{
    vstd::arithmetic::mul::lemma_mul_nonnegative(n, span);
    vstd::arithmetic::mul::lemma_mul_inequality(n, FX_ONE as int, span);
    vstd::arithmetic::div_mod::lemma_div_is_ordered(n * span, FX_ONE as int * span, FX_ONE as int);
    vstd::arithmetic::div_mod::lemma_div_multiples_vanish(span, FX_ONE as int);
    vstd::arithmetic::div_mod::lemma_div_pos_is_pos(n * span, FX_ONE as int);
}

/// Exact wide product of two scalars.
pub fn wide_mul(a: i64, b: i64) -> (r: i128)
    ensures
        r as int == a as int * b as int,
        i64::MIN as int * i64::MAX as int <= r as int <= i64::MIN as int * i64::MIN as int,
{
    assert((a as int) * (b as int) <= i64::MIN as int * i64::MIN as int
        && (a as int) * (b as int) >= i64::MIN as int * i64::MAX as int) by (nonlinear_arith)
        requires
            i64::MIN as int <= a as int <= i64::MAX as int,
            i64::MIN as int <= b as int <= i64::MAX as int,
    ;
    (a as i128) * (b as i128)
}

/// Wide quotient by `FX_ONE`, truncated toward zero.
pub fn wide_div_one(v: i128) -> (r: i128)
    requires
        v > i128::MIN,
    ensures
        r as int == div_tz(v as int, FX_ONE as int),
{
    if v >= 0 {
        v / (FX_ONE as i128)
    } else {
        -((-v) / (FX_ONE as i128))
    }
}

/// Wide quotient by a positive divisor, truncated toward zero.
pub fn wide_div_trunc(v: i128, d: i64) -> (r: i128)
    requires
        d > 0,
        v > i128::MIN,
    ensures
        r as int == div_tz(v as int, d as int),
{
    if v >= 0 {
        v / (d as i128)
    } else {
        -((-v) / (d as i128))
    }
}

/// Fixed-point multiplication.
pub fn fx_mul(a: i64, b: i64) -> (r: i64)
    ensures
        r as int == fx_mul_spec(a as int, b as int),
{
    assert((a as int) * (b as int) <= i64::MIN as int * i64::MIN as int
        && (a as int) * (b as int) >= i64::MIN as int * i64::MAX as int) by (nonlinear_arith)
        requires
            i64::MIN as int <= a as int <= i64::MAX as int,
            i64::MIN as int <= b as int <= i64::MAX as int,
    ;
    let p: i128 = (a as i128) * (b as i128);
    let q: i128 = if p >= 0 {
        p / (FX_ONE as i128)
    } else {
        -((-p) / (FX_ONE as i128))
    };
    assert(q as int == div_tz(p as int, FX_ONE as int));
    sat_i128(q)
}

/// Saturating addition.
pub fn fx_add(a: i64, b: i64) -> (r: i64)
    ensures
        r as int == fx_add_spec(a as int, b as int),
{
    sat_i128(a as i128 + b as i128)
}

/// Saturating subtraction.
pub fn fx_sub(a: i64, b: i64) -> (r: i64)
    ensures
        r as int == fx_sub_spec(a as int, b as int),
{
    sat_i128(a as i128 - b as i128)
}

/// Saturating negation.
pub fn fx_neg(a: i64) -> (r: i64)
    ensures
        r as int == fx_neg_spec(a as int),
{
    sat_i128(-(a as i128))
}

/// Wraps a wide phase value into `[0, FX_ONE)`, the remainder of Euclidean
/// division by `FX_ONE`.
pub fn fx_wrap_wide(v: i128) -> (r: i64)
    requires
        v > i128::MIN,
    ensures
        r as int == (v as int) % (FX_ONE as int),
        0 <= r < FX_ONE,
{
    if v >= 0 {
        let r: i128 = v % (FX_ONE as i128);
        r as i64
    } else {
        let n: i128 = -v;
        let rem: i128 = n % (FX_ONE as i128);
        let q0: i128 = n / (FX_ONE as i128);
        proof {
            lemma_fundamental_div_mod(n as int, FX_ONE as int);
        }
        if rem == 0 {
            proof {
                lemma_fundamental_div_mod_converse(v as int, FX_ONE as int, -(q0 as int), 0);
            }
            0
        } else {
            let r: i64 = FX_ONE - (rem as i64);
            proof {
                lemma_fundamental_div_mod_converse(
                    v as int,
                    FX_ONE as int,
                    -(q0 as int) - 1,
                    r as int,
                );
            }
            r
        }
    }
}

/// Wraps a phase into `[0, FX_ONE)`.
pub fn fx_wrap(p: i64) -> (r: i64)
    ensures
        r as int == (p as int) % (FX_ONE as int),
        0 <= r < FX_ONE,
{
    fx_wrap_wide(p as i128)
}

/// Half of a value, truncated toward zero.
pub fn fx_half(a: i64) -> (r: i64)
    ensures
        r as int == fx_half_spec(a as int),
{
    if a >= 0 {
        a / 2
    } else {
        let q: i128 = -((-(a as i128)) / 2);
        q as i64
    }
}

} // verus!
