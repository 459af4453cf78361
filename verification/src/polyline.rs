//! Sampling a chain of points by arc length.
//!
//! A polyline is a point list with precomputed segment lengths.  Sampling at
//! a parameter walks the segments until the accumulated length reaches the
//! target distance, then interpolates linearly within that segment, exactly
//! as the point lists behind polygons and imported paths are replayed.

use vstd::prelude::*;

use crate::fx::{div_tz, Fx, FX_ONE};
use crate::geom::{lemma_lerp_between, lerp, lerp_spec, point_in_unit_square};

verus! {

/// Sum of a sequence of segment lengths.
pub open spec fn sum_lengths(s: Seq<i64>) -> int
    decreases s.len(),
{
    if s.len() == 0 {
        0
    } else {
        sum_lengths(s.drop_last()) + s.last()
    }
}

/// The bounds every stored polyline obeys: at least one point, every point
/// in the unit square, one precomputed length per segment, each length the
/// distance of its segment, and few enough points that a total length in
/// millionths cannot overflow.
pub open spec fn polyline_wf(points: Seq<(i64, i64)>, lengths: Seq<i64>, total: i64) -> bool {
    &&& points.len() >= 1
    &&& points.len() <= 1_000_000_000
    &&& lengths.len() <= points.len()
    &&& (forall|i: int| 0 <= i < points.len() ==> point_in_unit_square(#[trigger] points[i]))
    &&& (forall|i: int|
        0 <= i < lengths.len() ==> #[trigger] lengths[i] as int == crate::geom::dist_spec(
            points[i],
            points[(i + 1) % points.len() as int],
        ))
    &&& total as int == sum_lengths(lengths)
}

/// Each segment length of a well-formed polyline is small and nonnegative.
pub proof fn lemma_lengths_bounded(points: Seq<(i64, i64)>, lengths: Seq<i64>, total: i64)
    requires
        polyline_wf(points, lengths, total),
    ensures
        forall|i: int| 0 <= i < lengths.len() ==> 0 <= #[trigger] lengths[i] <= 3_000_000,
{
    assert forall|i: int| 0 <= i < lengths.len() implies 0 <= #[trigger] lengths[i] <= 3_000_000 by {
        let a = points[i];
        let b = points[(i + 1) % points.len() as int];
        vstd::arithmetic::div_mod::lemma_mod_bound(i + 1, points.len() as int);
        let sq = crate::geom::sq_dist_spec(a, b);
        assert(0 <= sq <= 8_000_000_000_000int) by (nonlinear_arith)
            requires
                -2_000_000int <= b.0 - a.0 <= 2_000_000int,
                -2_000_000int <= b.1 - a.1 <= 2_000_000int,
                sq == (b.0 - a.0) * (b.0 - a.0) + (b.1 - a.1) * (b.1 - a.1),
        ;
        let r = crate::geom::sqrt_floor(sq);
        crate::geom::lemma_sqrt_floor_exists(sq);
        assert(r <= 3_000_000) by (nonlinear_arith)
            requires
                0 <= r,
                r * r <= 8_000_000_000_000int,
        ;
    }
}

/// A sum of segment lengths is between zero and three units per segment.
pub proof fn lemma_sum_lengths_bounds(lengths: Seq<i64>)
    requires
        forall|i: int| 0 <= i < lengths.len() ==> 0 <= #[trigger] lengths[i] <= 3_000_000,
    ensures
        0 <= sum_lengths(lengths) <= 3_000_000 * lengths.len(),
    decreases lengths.len(),
{
    if lengths.len() > 0 {
        lemma_sum_lengths_bounds(lengths.drop_last());
    }
}

/// The point a polyline yields after walking to a target distance: segments
/// are consumed until one covers the remaining distance (the last segment
/// catches everything left over), then the position is interpolated within
/// it.
pub open spec fn walk_spec(
    points: Seq<(i64, i64)>,
    lengths: Seq<i64>,
    i: int,
    remaining: int,
) -> (int, int)
    decreases lengths.len() - i,
{
    if i < 0 || i >= lengths.len() {
        (points[0].0 as int, points[0].1 as int)
    } else if remaining <= lengths[i] || i == lengths.len() - 1 {
        let local = if lengths[i] > 0 {
            div_tz(remaining * FX_ONE, lengths[i] as int)
        } else {
            0
        };
        let a = points[i];
        let b = points[(i + 1) % points.len() as int];
        (lerp_spec(a.0 as int, b.0 as int, local), lerp_spec(a.1 as int, b.1 as int, local))
    } else {
        walk_spec(points, lengths, i + 1, remaining - lengths[i])
    }
}

/// The segment lengths a point list determines: one distance per segment,
/// each from a point to its successor (wrapping to the first).
pub open spec fn polyline_lengths_spec(points: Seq<(i64, i64)>, segment_count: int) -> Seq<i64> {
    Seq::new(
        segment_count as nat,
        |i: int|
            crate::geom::dist_spec(points[i], points[(i + 1) % points.len() as int]) as i64,
    )
}

/// The point a polyline yields at a parameter in `[0, FX_ONE]`: the walk to
/// the corresponding fraction of the total length.
pub open spec fn polyline_sample_spec(
    points: Seq<(i64, i64)>,
    lengths: Seq<i64>,
    total: i64,
    tp: int,
) -> (int, int) {
    walk_spec(points, lengths, 0, div_tz(tp * total, FX_ONE as int))
}

/// Every point of the walk lies in the unit square.
pub proof fn lemma_walk_in_square(
    points: Seq<(i64, i64)>,
    lengths: Seq<i64>,
    i: int,
    remaining: int,
)
    requires
        points.len() >= 1,
        lengths.len() <= points.len(),
        forall|k: int| 0 <= k < points.len() ==> point_in_unit_square(#[trigger] points[k]),
    ensures
        -FX_ONE <= walk_spec(points, lengths, i, remaining).0 <= FX_ONE,
        -FX_ONE <= walk_spec(points, lengths, i, remaining).1 <= FX_ONE,
    decreases lengths.len() - i,
{
    if i < 0 || i >= lengths.len() {
    } else if remaining <= lengths[i] || i == lengths.len() - 1 {
        let local = if lengths[i] > 0 {
            div_tz(remaining * FX_ONE, lengths[i] as int)
        } else {
            0
        };
        let a = points[i];
        let b = points[(i + 1) % points.len() as int];
        vstd::arithmetic::div_mod::lemma_mod_bound(i + 1, points.len() as int);
        lemma_lerp_between(a.0 as int, b.0 as int, local);
        lemma_lerp_between(a.1 as int, b.1 as int, local);
    } else {
        lemma_walk_in_square(points, lengths, i + 1, remaining - lengths[i]);
    }
}

/// Sample a polyline at a parameter in `[0, FX_ONE]`.
pub(crate) fn polyline_sample(
    points: &Vec<(Fx, Fx)>,
    lengths: &Vec<Fx>,
    total: Fx,
    tp: Fx,
) -> (r: (Fx, Fx))
    requires
        polyline_wf(points@, lengths@, total),
        0 <= tp <= FX_ONE,
    ensures
        r.0 as int == polyline_sample_spec(points@, lengths@, total, tp as int).0,
        r.1 as int == polyline_sample_spec(points@, lengths@, total, tp as int).1,
{
    proof {
        lemma_lengths_bounded(points@, lengths@, total);
        lemma_sum_lengths_bounds(lengths@);
    }
    assert(0 <= tp as int * total as int <= 1_000_000int * total as int) by (nonlinear_arith)
        requires
            0 <= tp as int <= 1_000_000int,
            0 <= total as int,
    ;
    let wide: i128 = (tp as i128) * (total as i128);
    let target: i64 = (wide / (FX_ONE as i128)) as i64;
    proof {
        vstd::arithmetic::div_mod::lemma_div_pos_is_pos(wide as int, FX_ONE as int);
        vstd::arithmetic::div_mod::lemma_div_is_ordered(wide as int,
            1_000_000int * total as int, FX_ONE as int);
        vstd::arithmetic::div_mod::lemma_div_multiples_vanish(total as int, FX_ONE as int);
    }
    let mut i: usize = 0;
    let mut accumulated: i64 = 0;
    let ghost walk_goal = walk_spec(points@, lengths@, 0, target as int);
    while i < lengths.len()
        invariant
            polyline_wf(points@, lengths@, total),
            forall|k: int| 0 <= k < lengths@.len() ==> 0 <= #[trigger] lengths@[k] <= 3_000_000,
            i <= lengths@.len(),
            0 <= accumulated <= 3_000_000 * i,
            accumulated <= target,
            0 <= target <= total,
            walk_goal == walk_spec(points@, lengths@, i as int, target as int - accumulated as int),
            walk_goal == polyline_sample_spec(points@, lengths@, total, tp as int),
            i < lengths@.len() || lengths@.len() == 0,
        decreases lengths@.len() - i,
    {
        let edge_len: i64 = lengths[i];
        proof {
            assert(lengths@.len() as int <= 1_000_000_000int);
            assert(accumulated as int <= 3_000_000_000_000_000int);
        }
        if accumulated + edge_len >= target || i + 1 == lengths.len() {
            let remaining: i64 = target - accumulated;
            let local: i64 = if edge_len > 0 {
                let w: i128 = (remaining as i128) * (FX_ONE as i128);
                let q: i128 = if w >= 0 {
                    w / (edge_len as i128)
                } else {
                    -((-w) / (edge_len as i128))
                };
                if q > FX_ONE as i128 {
                    FX_ONE
                } else if q < 0 {
                    0
                } else {
                    q as i64
                }
            } else {
                0
            };
            let next_index: usize = if i + 1 == points.len() {
                0
            } else {
                i + 1
            };
            proof {
                if (i + 1) as int == points@.len() as int {
                    vstd::arithmetic::div_mod::lemma_mod_self_0(points@.len() as int);
                } else {
                    vstd::arithmetic::div_mod::lemma_small_mod((i + 1) as nat, points@.len() as nat);
                }
                let rem_spec = target as int - accumulated as int;
                let local_spec = if lengths@[i as int] > 0 {
                    div_tz(rem_spec * FX_ONE, lengths@[i as int] as int)
                } else {
                    0
                };
                assert(crate::geom::clamp01_spec(local as int) == crate::geom::clamp01_spec(
                    local_spec));
            }
            let a: (Fx, Fx) = points[i];
            let b: (Fx, Fx) = points[next_index];
            proof {
                let ga = points@[i as int];
                let gb = points@[(i as int + 1) % points@.len() as int];
                assert(b == gb);
                let rem_spec = target as int - accumulated as int;
                let local_spec = if lengths@[i as int] > 0 {
                    div_tz(rem_spec * FX_ONE, lengths@[i as int] as int)
                } else {
                    0
                };
                assert(walk_spec(points@, lengths@, i as int, rem_spec) == (
                    lerp_spec(ga.0 as int, gb.0 as int, local_spec),
                    lerp_spec(ga.1 as int, gb.1 as int, local_spec),
                ));
                assert(lerp_spec(ga.0 as int, gb.0 as int, local as int) == lerp_spec(
                    ga.0 as int, gb.0 as int, local_spec));
                assert(lerp_spec(ga.1 as int, gb.1 as int, local as int) == lerp_spec(
                    ga.1 as int, gb.1 as int, local_spec));
            }
            let rx: Fx = lerp(a.0, b.0, local);
            let ry: Fx = lerp(a.1, b.1, local);
            return (rx, ry);
        }
        accumulated = accumulated + edge_len;
        i = i + 1;
    }
    (points[0].0, points[0].1)
}

} // verus!
