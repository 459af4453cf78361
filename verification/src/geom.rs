//! Geometric primitives shared by the curve types: clamped linear
//! interpolation, integer square root, and point distance.

use vstd::prelude::*;

use crate::fx::{
    div_tz, fx_add_spec, fx_sub, fx_sub_spec, lemma_scale_in_range, sat_i128, wide_div_one, Fx,
    FX_ONE,
};

verus! {

/// A parameter clamped into `[0, FX_ONE]`.
pub open spec fn clamp01_spec(t: int) -> int {
    if t < 0 {
        0
    } else if t > FX_ONE {
        FX_ONE as int
    } else {
        t
    }
}

/// Linear interpolation from `a` to `b`, with the parameter clamped into
/// `[0, FX_ONE]`.
pub open spec fn lerp_spec(a: int, b: int, t: int) -> int {
    fx_add_spec(a, div_tz(clamp01_spec(t) * fx_sub_spec(b, a), FX_ONE as int))
}

/// A scale factor in `[0, FX_ONE]` applied to a nonpositive span stays
/// within the span.
proof fn lemma_scale_in_range_neg(n: int, span: int)
    requires
        0 <= n <= FX_ONE,
        span <= 0,
    ensures
        span <= div_tz(n * span, FX_ONE as int) <= 0,
{
    assert(n * span == -(n * -span)) by (nonlinear_arith);
    lemma_scale_in_range(n, -span);
}

/// Linear interpolation: the result always lies between the endpoints.
pub fn lerp(a: Fx, b: Fx, t: Fx) -> (r: Fx)
    ensures
        r as int == lerp_spec(a as int, b as int, t as int),
        a <= b ==> a <= r <= b,
        b <= a ==> b <= r <= a,
{
    let tc: Fx = if t < 0 {
        0
    } else if t > FX_ONE {
        FX_ONE
    } else {
        t
    };
    let span: Fx = fx_sub(b, a);
    assert(-9223372036854775808000000int <= tc as int * span as int
        <= 9223372036854775808000000int) by (nonlinear_arith)
        requires
            0 <= tc as int <= 1_000_000int,
            i64::MIN as int <= span as int <= i64::MAX as int,
    ;
    let wide: i128 = (tc as i128) * (span as i128);
    let part: i128 = wide_div_one(wide);
    proof {
        if a <= b {
            lemma_scale_in_range(tc as int, span as int);
        } else {
            lemma_scale_in_range_neg(tc as int, span as int);
        }
    }
    sat_i128(a as i128 + part)
}

/// Interpolation stays between its endpoints, whatever the parameter.
pub proof fn lemma_lerp_between(a: int, b: int, t: int)
    requires
        i64::MIN <= a <= i64::MAX,
        i64::MIN <= b <= i64::MAX,
    ensures
        a <= b ==> a <= lerp_spec(a, b, t) <= b,
        b <= a ==> b <= lerp_spec(a, b, t) <= a,
{
    let tc = clamp01_spec(t);
    let span = fx_sub_spec(b, a);
    if a <= b {
        lemma_scale_in_range(tc, span);
    } else {
        lemma_scale_in_range_neg(tc, span);
    }
}

/// `r` is the floor of the square root of `v`.
pub open spec fn is_sqrt_floor(v: int, r: int) -> bool {
    &&& 0 <= r
    &&& r * r <= v
    &&& v < (r + 1) * (r + 1)
}

/// The floor of the square root of a nonnegative value.
pub open spec fn sqrt_floor(v: int) -> int {
    choose|r: int| is_sqrt_floor(v, r)
}

/// The floor of a square root is unique.
pub proof fn lemma_sqrt_floor_unique(v: int, r1: int, r2: int)
    requires
        is_sqrt_floor(v, r1),
        is_sqrt_floor(v, r2),
    ensures
        r1 == r2,
{
    assert(r1 == r2) by (nonlinear_arith)
        requires
            0 <= r1 && r1 * r1 <= v && v < (r1 + 1) * (r1 + 1),
            0 <= r2 && r2 * r2 <= v && v < (r2 + 1) * (r2 + 1),
    ;
}

/// Every nonnegative value has a square root floor, and `sqrt_floor` is it.
pub proof fn lemma_sqrt_floor_exists(v: int)
    requires
        0 <= v,
    ensures
        is_sqrt_floor(v, sqrt_floor(v)),
    decreases v,
{
    if v == 0 {
        assert(is_sqrt_floor(0, 0));
    } else {
        lemma_sqrt_floor_exists(v - 1);
        let r = sqrt_floor(v - 1);
        if v == (r + 1) * (r + 1) {
            assert((r + 2) * (r + 2) > v) by (nonlinear_arith)
                requires
                    r >= 0,
                    v == (r + 1) * (r + 1),
            ;
            assert(is_sqrt_floor(v, r + 1));
        } else {
            assert(is_sqrt_floor(v, r));
        }
    }
}

/// Integer square root, rounded down, by binary search.
pub fn isqrt(v: u64) -> (r: u64)
    ensures
        is_sqrt_floor(v as int, r as int),
        r as int == sqrt_floor(v as int),
{
    let mut lo: u64 = 0;
    let mut hi: u64 = 0x1_0000_0000;
    assert((hi as int) * (hi as int) > v as int) by (nonlinear_arith)
        requires
            hi as int == 4294967296int,
            v as int <= u64::MAX as int,
    ;
    while lo + 1 < hi
        invariant
            lo < hi <= 0x1_0000_0000,
            (lo as int) * (lo as int) <= v as int,
            (hi as int) * (hi as int) > v as int,
        decreases hi - lo,
    {
        let mid: u64 = lo + (hi - lo) / 2;
        assert((mid as int) * (mid as int) < 18446744073709551616int) by (nonlinear_arith)
            requires
                0 <= mid as int,
                (mid as int) < 4294967296int,
        ;
        if mid * mid <= v {
            lo = mid;
        } else {
            hi = mid;
        }
    }
    proof {
        assert(is_sqrt_floor(v as int, lo as int));
        let w = sqrt_floor(v as int);
        assert(is_sqrt_floor(v as int, w));
        lemma_sqrt_floor_unique(v as int, lo as int, w);
    }
    lo
}

/// Squared distance between two points.
pub open spec fn sq_dist_spec(a: (i64, i64), b: (i64, i64)) -> int {
    (b.0 - a.0) * (b.0 - a.0) + (b.1 - a.1) * (b.1 - a.1)
}

/// Distance between two points, rounded down to a whole number of
/// millionths.
pub open spec fn dist_spec(a: (i64, i64), b: (i64, i64)) -> int {
    sqrt_floor(sq_dist_spec(a, b))
}

/// Whether a point lies in the unit square.
pub open spec fn point_in_unit_square(p: (i64, i64)) -> bool {
    -FX_ONE <= p.0 <= FX_ONE && -FX_ONE <= p.1 <= FX_ONE
}

/// Squared distance between two points of the unit square.
pub fn sq_dist(a: (Fx, Fx), b: (Fx, Fx)) -> (r: i64)
    requires
        point_in_unit_square(a),
        point_in_unit_square(b),
    ensures
        r as int == sq_dist_spec(a, b),
        0 <= r <= 8_000_000_000_000,
{
    let dx: i64 = b.0 - a.0;
    let dy: i64 = b.1 - a.1;
    assert(0 <= dx as int * dx as int <= 4_000_000_000_000int && 0 <= dy as int * dy as int
        <= 4_000_000_000_000int) by (nonlinear_arith)
        requires
            -2_000_000int <= dx as int <= 2_000_000int,
            -2_000_000int <= dy as int <= 2_000_000int,
    ;
    (dx * dx) + (dy * dy)
}

/// Distance between two points of the unit square.
pub fn dist(a: (Fx, Fx), b: (Fx, Fx)) -> (r: Fx)
    requires
        point_in_unit_square(a),
        point_in_unit_square(b),
    ensures
        r as int == dist_spec(a, b),
        0 <= r <= 3_000_000,
{
    let dx: i64 = b.0 - a.0;
    let dy: i64 = b.1 - a.1;
    assert(0 <= dx as int * dx as int <= 4_000_000_000_000int && 0 <= dy as int * dy as int
        <= 4_000_000_000_000int) by (nonlinear_arith)
        requires
            -2_000_000int <= dx as int <= 2_000_000int,
            -2_000_000int <= dy as int <= 2_000_000int,
    ;
    let sq: u64 = ((dx * dx) + (dy * dy)) as u64;
    let r: u64 = isqrt(sq);
    proof {
        assert(is_sqrt_floor(sq as int, r as int));
        assert(r as int <= 3_000_000) by (nonlinear_arith)
            requires
                0 <= r as int,
                (r as int) * (r as int) <= 8_000_000_000_000int,
        ;
    }
    r as i64
}

} // verus!
