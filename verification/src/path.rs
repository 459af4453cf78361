//! Arbitrary point sequences: custom outlines, imported vector paths,
//! traced image edges and text outlines all become paths.

use vstd::prelude::*;
use vstd::string::StringExecFns;

use crate::fx::{
    div_tz, fx_mul, fx_mul_spec, fx_wrap, fx_wrap_wide, wide_div_one, wide_div_trunc, wide_mul,
    Fx, FX_ONE, FX_TAU,
};
use crate::geom::{clamp01_spec, dist, dist_spec, point_in_unit_square};
use crate::polyline::{
    lemma_walk_in_square, polyline_lengths_spec, polyline_sample, polyline_sample_spec,
    polyline_wf, sum_lengths,
};
use crate::primitives::{clamp_unit_spec, clamp_unit};
use crate::shapes::Shape;
use crate::trig::{cos_turns, cos_turns_spec, sin_turns, sin_turns_spec};

verus! {

/// A path defined by a sequence of points, connected in order; a closed
/// path connects the last point back to the first.
pub struct Path {
    /// Points along the path.
    points: Vec<(Fx, Fx)>,
    /// Cached segment lengths for uniform sampling.
    segment_lengths: Vec<Fx>,
    /// Total path length.
    total_length: Fx,
    /// Whether the path is closed.
    closed: bool,
    /// Name of this path.
    name: String,
}

/// Number of segments a path of `n` points has: a closed path wraps around,
/// an open one stops at its last point.
pub open spec fn segment_count_spec(n: int, closed: bool) -> int {
    if closed {
        n
    } else if n > 0 {
        n - 1
    } else {
        0
    }
}

impl Path {
    /// The stored point list matches its cached lengths.
    #[verifier::type_invariant]
    spec fn type_wf(&self) -> bool {
        self.well_formed()
    }

    /// The cached segment lengths are the true lengths of the stored
    /// points, which all lie in the unit square.
    pub closed spec fn well_formed(&self) -> bool {
        &&& self.segment_lengths@.len() == segment_count_spec(
            self.points@.len() as int,
            self.closed,
        )
        &&& self.points@.len() == 0 ==> self.total_length == 0
        &&& self.points@.len() > 0 ==> polyline_wf(
            self.points@,
            self.segment_lengths@,
            self.total_length,
        )
        &&& self.points@.len() <= 1_000_000_000
    }

    /// The points of the path.
    pub closed spec fn points_view(&self) -> Seq<(i64, i64)> {
        self.points@
    }

    /// Create a new open path from points of the unit square.
    pub fn new(points: Vec<(Fx, Fx)>) -> (r: Self)
        requires
            points@.len() <= 1_000_000_000,
            forall|i: int| 0 <= i < points@.len() ==> point_in_unit_square(#[trigger] points@[i]),
        ensures
            r.points_view() == points@,
            !r.closed_spec(),
            r.name_spec() == "Path"@,
            r.in_unit_square(),
    {
        Path::with_options(points, false, String::from_str("Path"))
    }

    /// Create a new closed path from points of the unit square.
    pub fn closed(points: Vec<(Fx, Fx)>) -> (r: Self)
        requires
            points@.len() <= 1_000_000_000,
            forall|i: int| 0 <= i < points@.len() ==> point_in_unit_square(#[trigger] points@[i]),
        ensures
            r.points_view() == points@,
            r.closed_spec(),
            r.name_spec() == "Path"@,
            r.in_unit_square(),
    {
        Path::with_options(points, true, String::from_str("Path"))
    }

    /// Create a path with full options.
    pub fn with_options(points: Vec<(Fx, Fx)>, closed: bool, name: String) -> (r: Self)
        requires
            points@.len() <= 1_000_000_000,
            forall|i: int| 0 <= i < points@.len() ==> point_in_unit_square(#[trigger] points@[i]),
        ensures
            r.points_view() == points@,
            r.closed_spec() == closed,
            r.name_spec() == name@,
            r.in_unit_square(),
    {
        let n: usize = points.len();
        let segment_count: usize = if closed {
            n
        } else if n > 0 {
            n - 1
        } else {
            0
        };
        let mut segment_lengths: Vec<Fx> = Vec::new();
        let mut total_length: Fx = 0;
        let mut i: usize = 0;
        while i < segment_count
            invariant
                n == points@.len(),
                n <= 1_000_000_000,
                segment_count as int == segment_count_spec(n as int, closed),
                segment_count <= n,
                forall|k: int| 0 <= k < n ==> point_in_unit_square(#[trigger] points@[k]),
                i <= segment_count,
                segment_lengths@.len() == i,
                forall|k: int|
                    0 <= k < i ==> #[trigger] segment_lengths@[k] as int == dist_spec(
                        points@[k],
                        points@[(k + 1) % points@.len() as int],
                    ),
                forall|k: int| 0 <= k < i ==> 0 <= #[trigger] segment_lengths@[k] <= 3_000_000,
                0 <= total_length <= 3_000_000 * i,
                total_length as int == sum_lengths(segment_lengths@),
            decreases segment_count - i,
        {
            let next: usize = if i + 1 == n {
                0
            } else {
                i + 1
            };
            proof {
                if (i + 1) as int == n as int {
                    vstd::arithmetic::div_mod::lemma_mod_self_0(n as int);
                } else {
                    vstd::arithmetic::div_mod::lemma_small_mod((i + 1) as nat, n as nat);
                }
            }
            let len: Fx = dist(points[i], points[next]);
            let ghost pre = segment_lengths@;
            segment_lengths.push(len);
            proof {
                assert(segment_lengths@.drop_last() =~= pre);
            }
            total_length = total_length + len;
            i = i + 1;
        }
        Path { points, segment_lengths, total_length, closed, name }
    }

    /// Create a path that traces a sine wave from left to right.
    ///
    /// Point `i` of `n` sits at `x = 2 i/(n-1) - 1` with
    /// `y = amplitude * sin(periods * i/(n-1) turns)`, clamped into the
    /// unit square.
    pub fn sine_wave(amplitude: Fx, periods: Fx, num_points: usize) -> (r: Self)
        requires
            2 <= num_points <= 1_000_000,
        ensures
            r.points_view().len() == num_points,
            forall|i: int|
                0 <= i < num_points ==> #[trigger] r.points_view()[i] == (
                    sine_wave_vertex_spec(amplitude as int, periods as int, num_points as int, i).0
                        as i64,
                    sine_wave_vertex_spec(amplitude as int, periods as int, num_points as int, i).1
                        as i64,
                ),
            !r.closed_spec(),
            r.name_spec() == "Sine Wave"@,
            r.in_unit_square(),
    {
        let mut points: Vec<(Fx, Fx)> = Vec::new();
        let mut i: usize = 0;
        while i < num_points
            invariant
                2 <= num_points <= 1_000_000,
                i <= num_points,
                points@.len() == i,
                forall|k: int|
                    0 <= k < i ==> #[trigger] points@[k] == (
                        sine_wave_vertex_spec(amplitude as int, periods as int,
                            num_points as int, k).0 as i64,
                        sine_wave_vertex_spec(amplitude as int, periods as int,
                            num_points as int, k).1 as i64,
                    ),
                forall|k: int| 0 <= k < i ==> point_in_unit_square(#[trigger] points@[k]),
            decreases num_points - i,
        {
            let tlin: Fx = span_param(i, num_points - 1);
            let x: Fx = clamp_unit(2 * tlin - FX_ONE);
            let phase: Fx = fx_wrap(fx_mul(tlin, periods));
            let y: Fx = clamp_unit(fx_mul(amplitude, sin_turns(phase)));
            points.push((x, y));
            i = i + 1;
        }
        Path::with_options(points, false, String::from_str("Sine Wave"))
    }

    /// Create a Lissajous curve: two perpendicular oscillations with
    /// frequency ratios `a` and `b` and an X phase offset of `delta`
    /// radians.
    pub fn lissajous(a: Fx, b: Fx, delta: Fx, num_points: usize) -> (r: Self)
        requires
            1 <= num_points <= 1_000_000,
        ensures
            r.points_view().len() == num_points,
            forall|i: int|
                0 <= i < num_points ==> #[trigger] r.points_view()[i] == (
                    lissajous_vertex_spec(a as int, b as int, delta as int, num_points as int, i).0
                        as i64,
                    lissajous_vertex_spec(a as int, b as int, delta as int, num_points as int, i).1
                        as i64,
                ),
            r.closed_spec(),
            r.name_spec() == "Lissajous"@,
            r.in_unit_square(),
    {
        let delta_turns: i64 = wide_div_trunc(wide_mul(delta, FX_ONE), FX_TAU) as i64;
        let mut points: Vec<(Fx, Fx)> = Vec::new();
        let mut i: usize = 0;
        while i < num_points
            invariant
                1 <= num_points <= 1_000_000,
                i <= num_points,
                delta_turns as int == div_tz(delta as int * FX_ONE, FX_TAU as int),
                points@.len() == i,
                forall|k: int|
                    0 <= k < i ==> #[trigger] points@[k] == (
                        lissajous_vertex_spec(a as int, b as int, delta as int,
                            num_points as int, k).0 as i64,
                        lissajous_vertex_spec(a as int, b as int, delta as int,
                            num_points as int, k).1 as i64,
                    ),
                forall|k: int| 0 <= k < i ==> point_in_unit_square(#[trigger] points@[k]),
            decreases num_points - i,
        {
            let tt: Fx = span_param(i, num_points);
            let phase_x: Fx = fx_wrap_wide(
                wide_div_one(wide_mul(a, tt)) + delta_turns as i128,
            );
            let phase_y: Fx = fx_wrap_wide(wide_div_one(wide_mul(b, tt)));
            let x: Fx = sin_turns(phase_x);
            let y: Fx = sin_turns(phase_y);
            points.push((x, y));
            i = i + 1;
        }
        Path::with_options(points, true, String::from_str("Lissajous"))
    }

    /// Create a spiral from `start_radius` out to `end_radius` over the
    /// given number of whole turns.
    pub fn spiral(start_radius: Fx, end_radius: Fx, turns: Fx, num_points: usize) -> (r: Self)
        requires
            2 <= num_points <= 1_000_000,
            -FX_ONE <= start_radius <= FX_ONE,
            -FX_ONE <= end_radius <= FX_ONE,
        ensures
            r.points_view().len() == num_points,
            forall|i: int|
                0 <= i < num_points ==> #[trigger] r.points_view()[i] == (
                    spiral_vertex_spec(start_radius as int, end_radius as int, turns as int,
                        num_points as int, i).0 as i64,
                    spiral_vertex_spec(start_radius as int, end_radius as int, turns as int,
                        num_points as int, i).1 as i64,
                ),
            !r.closed_spec(),
            r.name_spec() == "Spiral"@,
            r.in_unit_square(),
    {
        let mut points: Vec<(Fx, Fx)> = Vec::new();
        let mut i: usize = 0;
        while i < num_points
            invariant
                2 <= num_points <= 1_000_000,
                -FX_ONE <= start_radius <= FX_ONE,
                -FX_ONE <= end_radius <= FX_ONE,
                i <= num_points,
                points@.len() == i,
                forall|k: int|
                    0 <= k < i ==> #[trigger] points@[k] == (
                        spiral_vertex_spec(start_radius as int, end_radius as int, turns as int,
                            num_points as int, k).0 as i64,
                        spiral_vertex_spec(start_radius as int, end_radius as int, turns as int,
                            num_points as int, k).1 as i64,
                    ),
                forall|k: int| 0 <= k < i ==> point_in_unit_square(#[trigger] points@[k]),
            decreases num_points - i,
        {
            let tlin: Fx = span_param(i, num_points - 1);
            let radius: Fx = crate::geom::lerp(start_radius, end_radius, tlin);
            let phase: Fx = fx_wrap_wide(wide_div_one(wide_mul(tlin, turns)));
            let c: Fx = cos_turns(phase);
            let s: Fx = sin_turns(phase);
            let x: Fx = fx_mul(radius, c);
            let y: Fx = fx_mul(radius, s);
            proof {
                crate::fx::lemma_fx_mul_contract(radius as int, c as int);
                crate::fx::lemma_fx_mul_contract(radius as int, s as int);
            }
            points.push((x, y));
            i = i + 1;
        }
        Path::with_options(points, false, String::from_str("Spiral"))
    }

    /// Create a heart outline scaled by `scale`.
    pub fn heart(scale: Fx, num_points: usize) -> (r: Self)
        requires
            1 <= num_points <= 1_000_000,
        ensures
            r.points_view().len() == num_points,
            forall|i: int|
                0 <= i < num_points ==> #[trigger] r.points_view()[i] == (
                    heart_vertex_spec(scale as int, num_points as int, i).0 as i64,
                    heart_vertex_spec(scale as int, num_points as int, i).1 as i64,
                ),
            r.closed_spec(),
            r.name_spec() == "Heart"@,
            r.in_unit_square(),
    {
        let mut points: Vec<(Fx, Fx)> = Vec::new();
        let mut i: usize = 0;
        while i < num_points
            invariant
                1 <= num_points <= 1_000_000,
                i <= num_points,
                points@.len() == i,
                forall|k: int|
                    0 <= k < i ==> #[trigger] points@[k] == (
                        heart_vertex_spec(scale as int, num_points as int, k).0 as i64,
                        heart_vertex_spec(scale as int, num_points as int, k).1 as i64,
                    ),
                forall|k: int| 0 <= k < i ==> point_in_unit_square(#[trigger] points@[k]),
            decreases num_points - i,
        {
            let p: Fx = span_param(i, num_points);
            let s: Fx = sin_turns(p);
            let s3: Fx = fx_mul(fx_mul(s, s), s);
            let c1: Fx = cos_turns(p);
            let c2: Fx = cos_turns(fx_wrap(2 * p));
            let c3: Fx = cos_turns(fx_wrap(3 * p));
            let c4: Fx = cos_turns(fx_wrap(4 * p));
            let ym: i64 = 13 * c1 - 5 * c2 - 2 * c3 - c4;
            let x: Fx = clamp_unit(scale_16_17(fx_mul(s3, scale)));
            let y: Fx = clamp_unit(div_17(fx_mul(ym, scale)));
            points.push((x, y));
            i = i + 1;
        }
        Path::with_options(points, true, String::from_str("Heart"))
    }

    /// Get the number of points in the path.
    pub fn len(&self) -> (r: usize)
        ensures
            r == self.points_view().len(),
    {
        self.points.len()
    }

    /// Check if the path is empty.
    pub fn is_empty(&self) -> (r: bool)
        ensures
            r == (self.points_view().len() == 0),
    {
        self.points.len() == 0
    }

    /// What sampling a well-formed path means, over its public views: the
    /// polyline walk over the point list's own segment lengths and their
    /// sum, at the wrapped (closed) or clamped (open) parameter; an empty
    /// path rests at the origin.
    pub proof fn lemma_sample_is_polyline_walk(&self, t: int)
        requires
            self.in_unit_square(),
        ensures
            self.points_view().len() == 0 ==> self.sample_spec(t) == (0int, 0int),
            self.points_view().len() > 0 ==> {
                let lengths = polyline_lengths_spec(
                    self.points_view(),
                    segment_count_spec(self.points_view().len() as int, self.closed_spec()),
                );
                let tp = if self.closed_spec() {
                    t % (FX_ONE as int)
                } else {
                    crate::geom::clamp01_spec(t)
                };
                self.sample_spec(t) == polyline_sample_spec(
                    self.points_view(),
                    lengths,
                    sum_lengths(lengths) as i64,
                    tp,
                )
            },
            self.length_spec() == sum_lengths(
                polyline_lengths_spec(
                    self.points_view(),
                    segment_count_spec(self.points_view().len() as int, self.closed_spec()),
                ),
            ),
    {
        let lengths = polyline_lengths_spec(
            self.points@,
            segment_count_spec(self.points@.len() as int, self.closed),
        );
        if self.points@.len() > 0 {
            assert forall|i: int| 0 <= i < lengths.len() implies self.segment_lengths@[i]
                == lengths[i] by {}
            assert(self.segment_lengths@ =~= lengths);
        } else {
            assert(self.segment_lengths@ =~= lengths);
        }
    }

    /// Get a reference to the points.
    pub fn points(&self) -> (r: &Vec<(Fx, Fx)>)
        ensures
            r@ == self.points_view(),
    {
        &self.points
    }
}

/// Point `i` of a sine-wave path.
pub open spec fn sine_wave_vertex_spec(amplitude: int, periods: int, n: int, i: int) -> (
    int,
    int,
) {
    let tlin = div_tz(i * FX_ONE, n - 1);
    let phase = fx_mul_spec(tlin, periods) % (FX_ONE as int);
    (
        clamp_unit_spec(2 * tlin - FX_ONE),
        clamp_unit_spec(fx_mul_spec(amplitude, sin_turns_spec(phase))),
    )
}

/// Point `i` of a Lissajous path.
pub open spec fn lissajous_vertex_spec(a: int, b: int, delta: int, n: int, i: int) -> (int, int) {
    let tt = div_tz(i * FX_ONE, n);
    let dt = div_tz(delta * FX_ONE, FX_TAU as int);
    (
        sin_turns_spec((div_tz(a * tt, FX_ONE as int) + dt) % (FX_ONE as int)),
        sin_turns_spec(div_tz(b * tt, FX_ONE as int) % (FX_ONE as int)),
    )
}

/// Point `i` of a spiral path.
pub open spec fn spiral_vertex_spec(start_radius: int, end_radius: int, turns: int, n: int, i: int)
    -> (int, int) {
    let tlin = div_tz(i * FX_ONE, n - 1);
    let radius = crate::geom::lerp_spec(start_radius, end_radius, tlin);
    let phase = div_tz(tlin * turns, FX_ONE as int) % (FX_ONE as int);
    (
        fx_mul_spec(radius, cos_turns_spec(phase)),
        fx_mul_spec(radius, sin_turns_spec(phase)),
    )
}

/// Point `i` of a heart path.
pub open spec fn heart_vertex_spec(scale: int, n: int, i: int) -> (int, int) {
    let p = div_tz(i * FX_ONE, n);
    let s = sin_turns_spec(p);
    let s3 = fx_mul_spec(fx_mul_spec(s, s), s);
    let c1 = cos_turns_spec(p);
    let c2 = cos_turns_spec((2 * p) % (FX_ONE as int));
    let c3 = cos_turns_spec((3 * p) % (FX_ONE as int));
    let c4 = cos_turns_spec((4 * p) % (FX_ONE as int));
    let ym = 13 * c1 - 5 * c2 - 2 * c3 - c4;
    (
        clamp_unit_spec(div_tz(16 * fx_mul_spec(s3, scale), 17)),
        clamp_unit_spec(div_tz(fx_mul_spec(ym, scale), 17)),
    )
}

/// The parameter `i/denom` of a trace, in millionths.
fn span_param(i: usize, denom: usize) -> (t: Fx)
    requires
        1 <= denom,
        i <= denom,
    ensures
        t as int == div_tz(i as int * FX_ONE, denom as int),
        0 <= t <= FX_ONE,
{
    assert(0 <= i as int * FX_ONE as int <= denom as int * FX_ONE as int
        && denom as int * FX_ONE as int <= 18446744073709551615000000int) by (nonlinear_arith)
        requires
            0 <= i as int <= denom as int,
            denom as int <= 18446744073709551615int,
    ;
    let wide: i128 = (i as i128) * (FX_ONE as i128);
    proof {
        vstd::arithmetic::div_mod::lemma_div_pos_is_pos(wide as int, denom as int);
        vstd::arithmetic::div_mod::lemma_div_is_ordered(wide as int,
            denom as int * FX_ONE as int, denom as int);
        vstd::arithmetic::div_mod::lemma_div_multiples_vanish(FX_ONE as int, denom as int);
    }
    (wide / (denom as i128)) as i64
}

/// Sixteen seventeenths of a value, truncated toward zero.
fn scale_16_17(v: i64) -> (r: i64)
    ensures
        r as int == div_tz(16 * v, 17),
{
    let w: i128 = 16 * (v as i128);
    let q: i128 = if w >= 0 {
        w / 17
    } else {
        -((-w) / 17)
    };
    proof {
        if w >= 0 {
            vstd::arithmetic::div_mod::lemma_div_is_ordered(w as int, 17 * (v as int), 17);
            vstd::arithmetic::div_mod::lemma_div_multiples_vanish(v as int, 17);
            vstd::arithmetic::div_mod::lemma_div_pos_is_pos(w as int, 17);
        } else {
            vstd::arithmetic::div_mod::lemma_div_is_ordered(-(w as int), 17 * -(v as int), 17);
            vstd::arithmetic::div_mod::lemma_div_multiples_vanish(-(v as int), 17);
            vstd::arithmetic::div_mod::lemma_div_pos_is_pos(-(w as int), 17);
        }
    }
    q as i64
}

/// A seventeenth of a value, truncated toward zero.
fn div_17(v: i64) -> (r: i64)
    ensures
        r as int == div_tz(v as int, 17),
{
    if v >= 0 {
        v / 17
    } else {
        let q: i128 = -((-(v as i128)) / 17);
        proof {
            vstd::arithmetic::div_mod::lemma_div_pos_is_pos(-(v as int), 17);
            vstd::arithmetic::div_mod::lemma_div_nonincreasing(-(v as int), 17);
        }
        q as i64
    }
}

impl Shape for Path {
    /// The polyline walk over the stored points; a closed path wraps the
    /// parameter, an open one clamps it.  An empty path rests at the
    /// origin.
    closed spec fn sample_spec(&self, t: int) -> (int, int) {
        if self.points@.len() == 0 {
            (0, 0)
        } else {
            let tp = if self.closed {
                t % (FX_ONE as int)
            } else {
                clamp01_spec(t)
            };
            polyline_sample_spec(self.points@, self.segment_lengths@, self.total_length, tp)
        }
    }

    /// A path is confined when its stored points and cached lengths are
    /// well formed, which every constructor guarantees.
    closed spec fn in_unit_square(&self) -> bool {
        self.well_formed()
    }

    closed spec fn name_spec(&self) -> Seq<char> {
        self.name@
    }

    closed spec fn length_spec(&self) -> int {
        self.total_length as int
    }

    closed spec fn closed_spec(&self) -> bool {
        self.closed
    }

    fn sample(&self, t: Fx) -> (r: (Fx, Fx)) {
        proof {
            use_type_invariant(&*self);
        }
        if self.points.len() == 0 {
            return (0, 0);
        }
        let tp: Fx = if self.closed {
            fx_wrap(t)
        } else if t < 0 {
            0
        } else if t > FX_ONE {
            FX_ONE
        } else {
            t
        };
        polyline_sample(&self.points, &self.segment_lengths, self.total_length, tp)
    }

    fn name(&self) -> (r: &str) {
        self.name.as_str()
    }

    fn length(&self) -> (r: Fx) {
        self.total_length
    }

    fn is_closed(&self) -> (r: bool) {
        self.closed
    }

    proof fn lemma_sample_in_unit_square(&self, t: int) {
        if self.points@.len() > 0 {
            let tp = if self.closed {
                t % (FX_ONE as int)
            } else {
                clamp01_spec(t)
            };
            lemma_walk_in_square(
                self.points@,
                self.segment_lengths@,
                0,
                div_tz(tp * self.total_length, FX_ONE as int),
            );
        }
    }
}

} // verus!
