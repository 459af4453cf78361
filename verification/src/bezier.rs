//! Bezier curve evaluation.
//!
//! Imported vector paths and glyph outlines describe their curved segments
//! as quadratic and cubic Bezier curves; they are flattened into point
//! sequences by sampling these polynomials at evenly spaced parameters.

use vstd::prelude::*;

use crate::fx::{fx_add, fx_add_spec, fx_mul, fx_mul_spec, fx_sub, fx_sub_spec, Fx, FX_ONE};

verus! {

/// One coordinate of a quadratic Bezier curve at `t`:
/// `(1-t)^2 p0 + 2 (1-t) t p1 + t^2 p2`, in fixed point.
pub open spec fn quad_coord_spec(p0: int, p1: int, p2: int, t: int) -> int {
    let mt = fx_sub_spec(FX_ONE as int, t);
    let a = fx_mul_spec(fx_mul_spec(mt, mt), p0);
    let mid = fx_mul_spec(mt, t);
    let b = fx_mul_spec(fx_add_spec(mid, mid), p1);
    let c = fx_mul_spec(fx_mul_spec(t, t), p2);
    fx_add_spec(fx_add_spec(a, b), c)
}

/// A quadratic Bezier curve evaluated at parameter `t`.
pub fn quadratic_bezier(p0: (Fx, Fx), p1: (Fx, Fx), p2: (Fx, Fx), t: Fx) -> (r: (Fx, Fx))
    ensures
        r.0 as int == quad_coord_spec(p0.0 as int, p1.0 as int, p2.0 as int, t as int),
        r.1 as int == quad_coord_spec(p0.1 as int, p1.1 as int, p2.1 as int, t as int),
{
    let mt: Fx = fx_sub(FX_ONE, t);
    let mt2: Fx = fx_mul(mt, mt);
    let t2: Fx = fx_mul(t, t);
    let mid: Fx = fx_mul(mt, t);
    let two_mid: Fx = fx_add(mid, mid);
    let x: Fx = fx_add(fx_add(fx_mul(mt2, p0.0), fx_mul(two_mid, p1.0)), fx_mul(t2, p2.0));
    let y: Fx = fx_add(fx_add(fx_mul(mt2, p0.1), fx_mul(two_mid, p1.1)), fx_mul(t2, p2.1));
    (x, y)
}

/// One coordinate of a cubic Bezier curve at `t`:
/// `(1-t)^3 p0 + 3 (1-t)^2 t p1 + 3 (1-t) t^2 p2 + t^3 p3`, in fixed
/// point.
pub open spec fn cubic_coord_spec(p0: int, p1: int, p2: int, p3: int, t: int) -> int {
    let mt = fx_sub_spec(FX_ONE as int, t);
    let mt2 = fx_mul_spec(mt, mt);
    let t2 = fx_mul_spec(t, t);
    let a = fx_mul_spec(fx_mul_spec(mt2, mt), p0);
    let b1 = fx_mul_spec(mt2, t);
    let b = fx_mul_spec(fx_add_spec(fx_add_spec(b1, b1), b1), p1);
    let c1 = fx_mul_spec(mt, t2);
    let c = fx_mul_spec(fx_add_spec(fx_add_spec(c1, c1), c1), p2);
    let d = fx_mul_spec(fx_mul_spec(t2, t), p3);
    fx_add_spec(fx_add_spec(fx_add_spec(a, b), c), d)
}

/// A cubic Bezier curve evaluated at parameter `t`.
pub fn cubic_bezier(p0: (Fx, Fx), p1: (Fx, Fx), p2: (Fx, Fx), p3: (Fx, Fx), t: Fx) -> (r: (
    Fx,
    Fx,
))
    ensures
        r.0 as int == cubic_coord_spec(p0.0 as int, p1.0 as int, p2.0 as int, p3.0 as int, t as int),
        r.1 as int == cubic_coord_spec(p0.1 as int, p1.1 as int, p2.1 as int, p3.1 as int, t as int),
{
    let mt: Fx = fx_sub(FX_ONE, t);
    let mt2: Fx = fx_mul(mt, mt);
    let mt3: Fx = fx_mul(mt2, mt);
    let t2: Fx = fx_mul(t, t);
    let t3: Fx = fx_mul(t2, t);
    let b1: Fx = fx_mul(mt2, t);
    let three_b1: Fx = fx_add(fx_add(b1, b1), b1);
    let c1: Fx = fx_mul(mt, t2);
    let three_c1: Fx = fx_add(fx_add(c1, c1), c1);
    let x: Fx = fx_add(
        fx_add(fx_add(fx_mul(mt3, p0.0), fx_mul(three_b1, p1.0)), fx_mul(three_c1, p2.0)),
        fx_mul(t3, p3.0),
    );
    let y: Fx = fx_add(
        fx_add(fx_add(fx_mul(mt3, p0.1), fx_mul(three_b1, p1.1)), fx_mul(three_c1, p2.1)),
        fx_mul(t3, p3.1),
    );
    (x, y)
}

/// The parameter of flattening step `i` of `samples`: `i/samples` of the
/// curve, with step `samples` landing exactly on the end.
pub open spec fn flatten_param_spec(i: int, samples: int) -> int {
    (i * FX_ONE) / samples
}

/// Flatten a quadratic Bezier curve into the points at steps `1` to
/// `samples` (the caller already holds the starting point).
pub fn flatten_quad(p0: (Fx, Fx), p1: (Fx, Fx), p2: (Fx, Fx), samples: usize) -> (r: Vec<
    (Fx, Fx),
>)
    requires
        1 <= samples <= 1_000_000,
    ensures
        r@.len() == samples,
        forall|i: int|
            0 <= i < samples ==> #[trigger] r@[i] == ({
                let t = flatten_param_spec(i + 1, samples as int);
                (
                    quad_coord_spec(p0.0 as int, p1.0 as int, p2.0 as int, t) as i64,
                    quad_coord_spec(p0.1 as int, p1.1 as int, p2.1 as int, t) as i64,
                )
            }),
{
    let mut r: Vec<(Fx, Fx)> = Vec::new();
    let mut i: usize = 1;
    while i <= samples
        invariant
            1 <= i <= samples + 1,
            1 <= samples <= 1_000_000,
            r@.len() == i - 1,
            forall|j: int|
                0 <= j < i - 1 ==> #[trigger] r@[j] == ({
                    let t = flatten_param_spec(j + 1, samples as int);
                    (
                        quad_coord_spec(p0.0 as int, p1.0 as int, p2.0 as int, t) as i64,
                        quad_coord_spec(p0.1 as int, p1.1 as int, p2.1 as int, t) as i64,
                    )
                }),
        decreases samples + 1 - i,
    {
        let t: Fx = step_param(i, samples);
        let p: (Fx, Fx) = quadratic_bezier(p0, p1, p2, t);
        r.push(p);
        i = i + 1;
    }
    r
}

/// Flatten a cubic Bezier curve into the points at steps `1` to `samples`
/// (the caller already holds the starting point).
pub fn flatten_cubic(
    p0: (Fx, Fx),
    p1: (Fx, Fx),
    p2: (Fx, Fx),
    p3: (Fx, Fx),
    samples: usize,
) -> (r: Vec<(Fx, Fx)>)
    requires
        1 <= samples <= 1_000_000,
    ensures
        r@.len() == samples,
        forall|i: int|
            0 <= i < samples ==> #[trigger] r@[i] == ({
                let t = flatten_param_spec(i + 1, samples as int);
                (
                    cubic_coord_spec(p0.0 as int, p1.0 as int, p2.0 as int, p3.0 as int, t) as i64,
                    cubic_coord_spec(p0.1 as int, p1.1 as int, p2.1 as int, p3.1 as int, t) as i64,
                )
            }),
{
    let mut r: Vec<(Fx, Fx)> = Vec::new();
    let mut i: usize = 1;
    while i <= samples
        invariant
            1 <= i <= samples + 1,
            1 <= samples <= 1_000_000,
            r@.len() == i - 1,
            forall|j: int|
                0 <= j < i - 1 ==> #[trigger] r@[j] == ({
                    let t = flatten_param_spec(j + 1, samples as int);
                    (
                        cubic_coord_spec(p0.0 as int, p1.0 as int, p2.0 as int, p3.0 as int,
                            t) as i64,
                        cubic_coord_spec(p0.1 as int, p1.1 as int, p2.1 as int, p3.1 as int,
                            t) as i64,
                    )
                }),
        decreases samples + 1 - i,
    {
        let t: Fx = step_param(i, samples);
        let p: (Fx, Fx) = cubic_bezier(p0, p1, p2, p3, t);
        r.push(p);
        i = i + 1;
    }
    r
}

/// The parameter of flattening step `i` of `samples`.
fn step_param(i: usize, samples: usize) -> (t: Fx)
    requires
        1 <= i <= samples,
    ensures
        t as int == flatten_param_spec(i as int, samples as int),
        0 <= t <= FX_ONE,
{
    assert(0 <= i as int * FX_ONE as int <= samples as int * FX_ONE as int
        && samples as int * FX_ONE as int <= 18446744073709551615000000int) by (nonlinear_arith)
        requires
            0 <= i as int <= samples as int,
            samples as int <= 18446744073709551615int,
    ;
    let wide: i128 = (i as i128) * (FX_ONE as i128);
    proof {
        vstd::arithmetic::div_mod::lemma_div_pos_is_pos(wide as int, samples as int);
        vstd::arithmetic::div_mod::lemma_div_is_ordered(wide as int,
            samples as int * FX_ONE as int, samples as int);
        vstd::arithmetic::div_mod::lemma_div_multiples_vanish(FX_ONE as int, samples as int);
    }
    (wide / (samples as i128)) as i64
}

} // verus!
