//! Fixed-point sine and cosine over turns.
//!
//! Angles are phases in turns: `FX_ONE` is one full revolution.  The sine is
//! a parabolic arch refined by a quadratic correction, a standard fixed-point
//! oscillator shape.  It is exact at the cardinal phases (0, 1/4, 1/2, 3/4 of
//! a turn give 0, 1, 0, -1) and stays within about 1.1e-3 of the real sine
//! in between, which suits an audio-rate waveform table.

use vstd::prelude::*;

use crate::fx::{fx_wrap, FX_HALF, FX_ONE, FX_QUARTER};

verus! {

/// Weight of the quadratic correction, in millionths.
pub const SINE_REFINE: i64 = 225_000;

/// Parabolic arch on a half turn: `16 * p * (FX_HALF - p) / FX_ONE`.
pub open spec fn sine_arch_base(p: int) -> int
    recommends
        0 <= p <= FX_HALF,
{
    16 * p * (FX_HALF - p) / (FX_ONE as int)
}

/// Refined arch: the parabola pulled toward the real sine.
pub open spec fn sine_arch(p: int) -> int
    recommends
        0 <= p <= FX_HALF,
{
    let b = sine_arch_base(p);
    b - (SINE_REFINE as int) * (b - b * b / (FX_ONE as int)) / (FX_ONE as int)
}

/// Sine of a phase in turns, for any phase (wraps modulo one turn).
pub open spec fn sin_turns_spec(p: int) -> int {
    let q = p % (FX_ONE as int);
    if q < FX_HALF {
        sine_arch(q)
    } else {
        -sine_arch(q - FX_HALF)
    }
}

/// Cosine of a phase in turns: the sine a quarter turn ahead.
pub open spec fn cos_turns_spec(p: int) -> int {
    sin_turns_spec(p + FX_QUARTER)
}

/// The refined arch, evaluated in machine arithmetic.
fn sine_arch_exec(p: i64) -> (r: i64)
    requires
        0 <= p <= FX_HALF,
    ensures
        r as int == sine_arch(p as int),
        0 <= r <= FX_ONE,
{
    let width: i64 = FX_HALF - p;
    assert(16 * (p as int) * (width as int) <= 4 * (FX_HALF as int) * (FX_HALF as int)
        && 0 <= 16 * (p as int) * (width as int)) by (nonlinear_arith)
        requires
            0 <= p as int <= FX_HALF as int,
            width as int == FX_HALF as int - p as int,
    ;
    let prod: i64 = 16 * p * width;
    let b: i64 = prod / FX_ONE;
    assert(b as int <= FX_ONE as int) by {
        assert(prod as int / (FX_ONE as int) <= 1_000_000_000_000int / (FX_ONE as int))
            by (nonlinear_arith)
            requires
                0 <= prod as int <= 1_000_000_000_000int,
        ;
    }
    assert(0 <= b as int * b as int <= b as int * FX_ONE as int) by (nonlinear_arith)
        requires
            0 <= b as int <= FX_ONE as int,
    ;
    let sq: i64 = (b * b) / FX_ONE;
    assert(sq as int <= b as int) by (nonlinear_arith)
        requires
            sq as int == b as int * b as int / (FX_ONE as int),
            0 <= b as int * b as int <= b as int * (FX_ONE as int),
            FX_ONE > 0,
    ;
    let dip: i64 = b - sq;
    let corr: i64 = (SINE_REFINE * dip) / FX_ONE;
    assert(0 <= SINE_REFINE as int * dip as int <= FX_ONE as int * dip as int) by (nonlinear_arith)
        requires
            0 <= dip as int,
            0 < SINE_REFINE as int <= FX_ONE as int,
    ;
    assert(corr as int <= dip as int) by (nonlinear_arith)
        requires
            corr as int == SINE_REFINE as int * dip as int / (FX_ONE as int),
            0 <= SINE_REFINE as int * dip as int <= (FX_ONE as int) * dip as int,
            FX_ONE > 0,
            0 <= dip as int,
    ;
    b - corr
}

/// Sine of a phase in turns.
pub fn sin_turns(p: i64) -> (r: i64)
    ensures
        r as int == sin_turns_spec(p as int),
        -FX_ONE <= r <= FX_ONE,
{
    let q = fx_wrap(p);
    if q < FX_HALF {
        sine_arch_exec(q)
    } else {
        let v = sine_arch_exec(q - FX_HALF);
        -v
    }
}

/// Cosine of a phase in turns.
pub fn cos_turns(p: i64) -> (r: i64)
    ensures
        r as int == cos_turns_spec(p as int),
        -FX_ONE <= r <= FX_ONE,
{
    let q = fx_wrap(p);
    let r = sin_turns(q + FX_QUARTER);
    proof {
        lemma_wrap_shift(p as int, FX_QUARTER as int);
    }
    r
}

/// The refined arch stays within `[0, FX_ONE]`.
pub proof fn lemma_sine_arch_bounds(p: int)
    requires
        0 <= p <= FX_HALF,
    ensures
        0 <= sine_arch(p) <= FX_ONE,
{
    let prod = 16 * p * (FX_HALF - p);
    assert(0 <= prod <= 1_000_000_000_000int) by (nonlinear_arith)
        requires
            0 <= p <= 500_000int,
            prod == 16 * p * (FX_HALF as int - p),
    ;
    let b = sine_arch_base(p);
    vstd::arithmetic::div_mod::lemma_div_pos_is_pos(prod, FX_ONE as int);
    vstd::arithmetic::div_mod::lemma_div_is_ordered(prod, 1_000_000_000_000int, FX_ONE as int);
    let sq = b * b / (FX_ONE as int);
    assert(0 <= b * b <= b * (FX_ONE as int)) by (nonlinear_arith)
        requires
            0 <= b <= FX_ONE as int,
    ;
    vstd::arithmetic::div_mod::lemma_div_pos_is_pos(b * b, FX_ONE as int);
    vstd::arithmetic::div_mod::lemma_div_is_ordered(b * b, b * (FX_ONE as int), FX_ONE as int);
    vstd::arithmetic::div_mod::lemma_div_multiples_vanish(b, FX_ONE as int);
    let dip = b - sq;
    crate::fx::lemma_scale_in_range(SINE_REFINE as int, dip);
}

/// The sine of any phase stays within `[-FX_ONE, FX_ONE]`.
pub proof fn lemma_sin_turns_spec_bounded(p: int)
    ensures
        -FX_ONE <= sin_turns_spec(p) <= FX_ONE,
{
    vstd::arithmetic::div_mod::lemma_mod_bound(p, FX_ONE as int);
    let q = p % (FX_ONE as int);
    if q < FX_HALF {
        lemma_sine_arch_bounds(q);
    } else {
        lemma_sine_arch_bounds(q - FX_HALF);
    }
}

/// The cosine of any phase stays within `[-FX_ONE, FX_ONE]`.
pub proof fn lemma_cos_turns_spec_bounded(p: int)
    ensures
        -FX_ONE <= cos_turns_spec(p) <= FX_ONE,
{
    lemma_sin_turns_spec_bounded(p + FX_QUARTER);
}

/// Shifting a phase commutes with wrapping it first.
proof fn lemma_wrap_shift(p: int, c: int)
    ensures
        (p % (FX_ONE as int) + c) % (FX_ONE as int) == (p + c) % (FX_ONE as int),
{
    vstd::arithmetic::div_mod::lemma_add_mod_noop(p, c, FX_ONE as int);
    vstd::arithmetic::div_mod::lemma_mod_twice(p, FX_ONE as int);
    vstd::arithmetic::div_mod::lemma_add_mod_noop(p % (FX_ONE as int), c, FX_ONE as int);
    vstd::arithmetic::div_mod::lemma_mod_twice(c, FX_ONE as int);
}

} // verus!
