//! Primitive shapes: circle, line, rectangle, polygon.

use vstd::prelude::*;

use crate::fx::{
    abs_int, div_tz, fx_add, fx_add_spec, fx_mul, fx_mul_spec, fx_sub, fx_sub_spec, fx_wrap,
    lemma_fx_mul_contract, sat_i128, sat64, Fx, FX_ONE, FX_QUARTER, FX_TAU,
};
use crate::geom::{dist, dist_spec, lemma_lerp_between, lerp, lerp_spec, point_in_unit_square};
use crate::polyline::{
    lemma_walk_in_square, polyline_lengths_spec, polyline_sample, polyline_sample_spec,
    polyline_wf, sum_lengths,
};
use crate::shapes::Shape;
use crate::trig::{
    cos_turns, cos_turns_spec, lemma_cos_turns_spec_bounded, lemma_sin_turns_spec_bounded,
    sin_turns, sin_turns_spec,
};

verus! {

/// A circle centred at `(cx, cy)` with the given radius, traced
/// counterclockwise from its rightmost point.
#[derive(Clone, Copy, Debug)]
pub struct Circle {
    /// Centre X coordinate.
    pub cx: Fx,
    /// Centre Y coordinate.
    pub cy: Fx,
    /// Radius.
    pub radius: Fx,
}

impl Circle {
    /// Create a new circle at the origin with the given radius.
    pub fn new(radius: Fx) -> (r: Self)
        ensures
            r == (Circle { cx: 0i64, cy: 0i64, radius }),
    {
        Circle { cx: 0, cy: 0, radius }
    }

    /// Create a circle at a specific position.
    pub fn at(cx: Fx, cy: Fx, radius: Fx) -> (r: Self)
        ensures
            r == (Circle { cx, cy, radius }),
    {
        Circle { cx, cy, radius }
    }
}

impl Shape for Circle {
    /// The centre plus the radius turned by the parameter.
    open spec fn sample_spec(&self, t: int) -> (int, int) {
        let phase = t % (FX_ONE as int);
        (
            fx_add_spec(self.cx as int, fx_mul_spec(self.radius as int, cos_turns_spec(phase))),
            fx_add_spec(self.cy as int, fx_mul_spec(self.radius as int, sin_turns_spec(phase))),
        )
    }

    open spec fn in_unit_square(&self) -> bool {
        abs_int(self.cx as int) + abs_int(self.radius as int) <= FX_ONE && abs_int(self.cy as int)
            + abs_int(self.radius as int) <= FX_ONE
    }

    open spec fn name_spec(&self) -> Seq<char> {
        "Circle"@
    }

    open spec fn length_spec(&self) -> int {
        fx_mul_spec(FX_TAU as int, self.radius as int)
    }

    open spec fn closed_spec(&self) -> bool {
        true
    }

    fn sample(&self, t: Fx) -> (r: (Fx, Fx)) {
        let phase: Fx = fx_wrap(t);
        let c: Fx = cos_turns(phase);
        let s: Fx = sin_turns(phase);
        (fx_add(self.cx, fx_mul(self.radius, c)), fx_add(self.cy, fx_mul(self.radius, s)))
    }

    fn name(&self) -> (r: &str) {
        "Circle"
    }

    fn length(&self) -> (r: Fx) {
        fx_mul(FX_TAU, self.radius)
    }

    fn is_closed(&self) -> (r: bool) {
        true
    }

    proof fn lemma_sample_in_unit_square(&self, t: int) {
        let phase = t % (FX_ONE as int);
        lemma_cos_turns_spec_bounded(phase);
        lemma_sin_turns_spec_bounded(phase);
        lemma_fx_mul_contract(self.radius as int, cos_turns_spec(phase));
        lemma_fx_mul_contract(self.radius as int, sin_turns_spec(phase));
    }
}

/// A line segment from `(x1, y1)` to `(x2, y2)`.
#[derive(Clone, Copy, Debug)]
pub struct Line {
    pub x1: Fx,
    pub y1: Fx,
    pub x2: Fx,
    pub y2: Fx,
}

impl Line {
    /// Create a new line from `(x1, y1)` to `(x2, y2)`.
    pub fn new(x1: Fx, y1: Fx, x2: Fx, y2: Fx) -> (r: Self)
        ensures
            r == (Line { x1, y1, x2, y2 }),
    {
        Line { x1, y1, x2, y2 }
    }

    /// Create a horizontal line at a Y position.
    pub fn horizontal(y: Fx, x_start: Fx, x_end: Fx) -> (r: Self)
        ensures
            r == (Line { x1: x_start, y1: y, x2: x_end, y2: y }),
    {
        Line::new(x_start, y, x_end, y)
    }

    /// Create a vertical line at an X position.
    pub fn vertical(x: Fx, y_start: Fx, y_end: Fx) -> (r: Self)
        ensures
            r == (Line { x1: x, y1: y_start, x2: x, y2: y_end }),
    {
        Line::new(x, y_start, x, y_end)
    }
}

/// A coordinate clamped into the unit interval around zero.
pub open spec fn clamp_unit_spec(v: int) -> int {
    if v < -FX_ONE {
        -FX_ONE as int
    } else if v > FX_ONE {
        FX_ONE as int
    } else {
        v
    }
}

/// Clamps a coordinate into the unit interval around zero.
pub(crate) fn clamp_unit(v: Fx) -> (r: Fx)
    ensures
        r as int == clamp_unit_spec(v as int),
{
    if v < -FX_ONE {
        -FX_ONE
    } else if v > FX_ONE {
        FX_ONE
    } else {
        v
    }
}

impl Shape for Line {
    /// Interpolation between the endpoints; the parameter is clamped, as an
    /// open shape does not wrap.
    open spec fn sample_spec(&self, t: int) -> (int, int) {
        (
            lerp_spec(self.x1 as int, self.x2 as int, t),
            lerp_spec(self.y1 as int, self.y2 as int, t),
        )
    }

    open spec fn in_unit_square(&self) -> bool {
        point_in_unit_square((self.x1, self.y1)) && point_in_unit_square((self.x2, self.y2))
    }

    open spec fn name_spec(&self) -> Seq<char> {
        "Line"@
    }

    /// The distance between the endpoints, each clamped into the unit
    /// square; a line within the unit square is unaffected by the clamp.
    open spec fn length_spec(&self) -> int {
        dist_spec(
            (clamp_unit_spec(self.x1 as int) as i64, clamp_unit_spec(self.y1 as int) as i64),
            (clamp_unit_spec(self.x2 as int) as i64, clamp_unit_spec(self.y2 as int) as i64),
        )
    }

    open spec fn closed_spec(&self) -> bool {
        false
    }

    fn sample(&self, t: Fx) -> (r: (Fx, Fx)) {
        (lerp(self.x1, self.x2, t), lerp(self.y1, self.y2, t))
    }

    fn name(&self) -> (r: &str) {
        "Line"
    }

    fn length(&self) -> (r: Fx) {
        dist(
            (clamp_unit(self.x1), clamp_unit(self.y1)),
            (clamp_unit(self.x2), clamp_unit(self.y2)),
        )
    }

    fn is_closed(&self) -> (r: bool) {
        false
    }

    proof fn lemma_sample_in_unit_square(&self, t: int) {
        lemma_lerp_between(self.x1 as int, self.x2 as int, t);
        lemma_lerp_between(self.y1 as int, self.y2 as int, t);
    }
}

/// A rectangle centred at `(cx, cy)`, traced clockwise from the top-left
/// corner: top, right, bottom, left.
#[derive(Clone, Copy, Debug)]
pub struct Rectangle {
    /// Centre X coordinate.
    pub cx: Fx,
    /// Centre Y coordinate.
    pub cy: Fx,
    /// Half-width (distance from centre to edge).
    pub half_width: Fx,
    /// Half-height (distance from centre to edge).
    pub half_height: Fx,
}

impl Rectangle {
    /// Create a rectangle at the origin.
    pub fn new(width: Fx, height: Fx) -> (r: Self)
        ensures
            r.cx == 0 && r.cy == 0,
            r.half_width as int == crate::fx::fx_half_spec(width as int),
            r.half_height as int == crate::fx::fx_half_spec(height as int),
    {
        Rectangle {
            cx: 0,
            cy: 0,
            half_width: crate::fx::fx_half(width),
            half_height: crate::fx::fx_half(height),
        }
    }

    /// Create a square at the origin.
    pub fn square(size: Fx) -> (r: Self)
        ensures
            r.cx == 0 && r.cy == 0,
            r.half_width as int == crate::fx::fx_half_spec(size as int),
            r.half_height as int == crate::fx::fx_half_spec(size as int),
    {
        Rectangle::new(size, size)
    }

    /// Create a rectangle at a specific position.
    pub fn at(cx: Fx, cy: Fx, width: Fx, height: Fx) -> (r: Self)
        ensures
            r.cx == cx && r.cy == cy,
            r.half_width as int == crate::fx::fx_half_spec(width as int),
            r.half_height as int == crate::fx::fx_half_spec(height as int),
    {
        Rectangle {
            cx,
            cy,
            half_width: crate::fx::fx_half(width),
            half_height: crate::fx::fx_half(height),
        }
    }

    /// Corner `k` of the rectangle, clockwise from the top-left.
    pub open spec fn corner_spec(&self, k: int) -> (int, int) {
        if k == 0 {
            (
                fx_sub_spec(self.cx as int, self.half_width as int),
                fx_add_spec(self.cy as int, self.half_height as int),
            )
        } else if k == 1 {
            (
                fx_add_spec(self.cx as int, self.half_width as int),
                fx_add_spec(self.cy as int, self.half_height as int),
            )
        } else if k == 2 {
            (
                fx_add_spec(self.cx as int, self.half_width as int),
                fx_sub_spec(self.cy as int, self.half_height as int),
            )
        } else {
            (
                fx_sub_spec(self.cx as int, self.half_width as int),
                fx_sub_spec(self.cy as int, self.half_height as int),
            )
        }
    }

    /// Corner `k` of the rectangle, clockwise from the top-left.
    fn corner(&self, k: i64) -> (r: (Fx, Fx))
        ensures
            r.0 as int == self.corner_spec(k as int).0,
            r.1 as int == self.corner_spec(k as int).1,
    {
        if k == 0 {
            (fx_sub(self.cx, self.half_width), fx_add(self.cy, self.half_height))
        } else if k == 1 {
            (fx_add(self.cx, self.half_width), fx_add(self.cy, self.half_height))
        } else if k == 2 {
            (fx_add(self.cx, self.half_width), fx_sub(self.cy, self.half_height))
        } else {
            (fx_sub(self.cx, self.half_width), fx_sub(self.cy, self.half_height))
        }
    }
}

impl Shape for Rectangle {
    /// The wrapped parameter is split into four edges; the position is
    /// interpolated along the current edge between its corners.
    open spec fn sample_spec(&self, t: int) -> (int, int) {
        let tw = t % (FX_ONE as int);
        let u = 4 * tw;
        let seg = u / (FX_ONE as int);
        let local = u % (FX_ONE as int);
        let a = self.corner_spec(seg);
        let b = self.corner_spec((seg + 1) % 4);
        (lerp_spec(a.0, b.0, local), lerp_spec(a.1, b.1, local))
    }

    open spec fn in_unit_square(&self) -> bool {
        abs_int(self.cx as int) + abs_int(self.half_width as int) <= FX_ONE && abs_int(
            self.cy as int,
        ) + abs_int(self.half_height as int) <= FX_ONE
    }

    open spec fn name_spec(&self) -> Seq<char> {
        "Rectangle"@
    }

    /// The perimeter: four times the half-extents summed.
    open spec fn length_spec(&self) -> int {
        sat64(4 * (self.half_width as int + self.half_height as int))
    }

    open spec fn closed_spec(&self) -> bool {
        true
    }

    fn sample(&self, t: Fx) -> (r: (Fx, Fx)) {
        let tw: Fx = fx_wrap(t);
        let u: i64 = 4 * tw;
        let seg: i64 = u / FX_ONE;
        let local: i64 = u % FX_ONE;
        proof {
            vstd::arithmetic::div_mod::lemma_div_pos_is_pos(u as int, FX_ONE as int);
            vstd::arithmetic::div_mod::lemma_div_is_ordered(u as int, 3_999_999, FX_ONE as int);
            if ((seg + 1) as int) < 4 {
                vstd::arithmetic::div_mod::lemma_small_mod((seg + 1) as nat, 4nat);
            } else {
                vstd::arithmetic::div_mod::lemma_mod_self_0(4);
            }
        }
        let seg_next: i64 = if seg >= 3 {
            0
        } else {
            seg + 1
        };
        let a: (Fx, Fx) = self.corner(seg);
        let b: (Fx, Fx) = self.corner(seg_next);
        (lerp(a.0, b.0, local), lerp(a.1, b.1, local))
    }

    fn name(&self) -> (r: &str) {
        "Rectangle"
    }

    fn length(&self) -> (r: Fx) {
        let s: i128 = 4 * (self.half_width as i128 + self.half_height as i128);
        sat_i128(s)
    }

    fn is_closed(&self) -> (r: bool) {
        true
    }

    proof fn lemma_sample_in_unit_square(&self, t: int) {
        let tw = t % (FX_ONE as int);
        let u = 4 * tw;
        let seg = u / (FX_ONE as int);
        let local = u % (FX_ONE as int);
        let a = self.corner_spec(seg);
        let b = self.corner_spec((seg + 1) % 4);
        lemma_lerp_between(a.0, b.0, local);
        lemma_lerp_between(a.1, b.1, local);
    }
}

/// The vertex of a regular polygon outline: radius `radius`, `i` of `n`
/// steps around the circle, started a quarter turn back (pointing up).
pub open spec fn regular_vertex_spec(n: int, radius: int, i: int) -> (int, int) {
    let phase = (div_tz(i * FX_ONE, n) - FX_QUARTER) % (FX_ONE as int);
    (fx_mul_spec(radius, cos_turns_spec(phase)), fx_mul_spec(radius, sin_turns_spec(phase)))
}

/// The vertex of a star outline: `2 n` steps around the circle,
/// alternating between the outer and the inner radius.
pub open spec fn star_vertex_spec(n: int, outer_radius: int, inner_radius: int, i: int) -> (
    int,
    int,
) {
    let radius = if i % 2 == 0 {
        outer_radius
    } else {
        inner_radius
    };
    regular_vertex_spec(2 * n, radius, i)
}

/// A polygon defined by a list of vertices, traced by arc length with the
/// last vertex connecting back to the first.
pub struct Polygon {
    /// Vertices in order.
    vertices: Vec<(Fx, Fx)>,
    /// Cached edge lengths for uniform sampling.
    edge_lengths: Vec<Fx>,
    /// Total perimeter length.
    total_length: Fx,
}

impl Polygon {
    /// All vertices lie in the unit square and the cached lengths are the
    /// true edge lengths.
    #[verifier::type_invariant]
    spec fn type_wf(&self) -> bool {
        &&& polyline_wf(self.vertices@, self.edge_lengths@, self.total_length)
        &&& self.vertices@.len() >= 3
        &&& self.edge_lengths@.len() == self.vertices@.len()
    }

    /// The vertices of the polygon.
    pub closed spec fn vertices_view(&self) -> Seq<(i64, i64)> {
        self.vertices@
    }

    /// Create a new polygon from at least three vertices of the unit
    /// square.
    pub fn new(vertices: Vec<(Fx, Fx)>) -> (r: Self)
        requires
            vertices@.len() >= 3,
            vertices@.len() <= 1_000_000_000,
            forall|i: int| 0 <= i < vertices@.len() ==> point_in_unit_square(#[trigger] vertices@[i]),
        ensures
            r.vertices_view() == vertices@,
            r.in_unit_square(),
    {
        let n: usize = vertices.len();
        let mut edge_lengths: Vec<Fx> = Vec::new();
        let mut total_length: Fx = 0;
        let mut i: usize = 0;
        while i < n
            invariant
                n == vertices@.len(),
                3 <= n <= 1_000_000_000,
                forall|k: int| 0 <= k < n ==> point_in_unit_square(#[trigger] vertices@[k]),
                i <= n,
                edge_lengths@.len() == i,
                forall|k: int|
                    0 <= k < i ==> #[trigger] edge_lengths@[k] as int == dist_spec(
                        vertices@[k],
                        vertices@[(k + 1) % vertices@.len() as int],
                    ),
                forall|k: int| 0 <= k < i ==> 0 <= #[trigger] edge_lengths@[k] <= 3_000_000,
                0 <= total_length <= 3_000_000 * i,
                total_length as int == sum_lengths(edge_lengths@),
            decreases n - i,
        {
            let next: usize = if i + 1 == n {
                0
            } else {
                i + 1
            };
            proof {
                if (i + 1) as int == n as int {
                    vstd::arithmetic::div_mod::lemma_mod_self_0(n as int);
                } else {
                    vstd::arithmetic::div_mod::lemma_small_mod((i + 1) as nat, n as nat);
                }
            }
            let len: Fx = dist(vertices[i], vertices[next]);
            let ghost pre = edge_lengths@;
            edge_lengths.push(len);
            proof {
                assert(edge_lengths@.drop_last() =~= pre);
            }
            total_length = total_length + len;
            i = i + 1;
        }
        let r = Polygon { vertices, edge_lengths, total_length };
        r
    }

    /// Create a regular polygon with `n` sides, its first vertex at the
    /// top.
    pub fn regular(n: usize, radius: Fx) -> (r: Self)
        requires
            3 <= n <= 1_000_000_000,
            -FX_ONE <= radius <= FX_ONE,
        ensures
            r.vertices_view().len() == n,
            r.in_unit_square(),
            forall|i: int|
                0 <= i < n ==> #[trigger] r.vertices_view()[i] == (
                    regular_vertex_spec(n as int, radius as int, i).0 as i64,
                    regular_vertex_spec(n as int, radius as int, i).1 as i64,
                ),
    {
        let mut vertices: Vec<(Fx, Fx)> = Vec::new();
        let mut i: usize = 0;
        while i < n
            invariant
                3 <= n <= 1_000_000_000,
                -FX_ONE <= radius <= FX_ONE,
                i <= n,
                vertices@.len() == i,
                forall|k: int|
                    0 <= k < i ==> #[trigger] vertices@[k] == (
                        regular_vertex_spec(n as int, radius as int, k).0 as i64,
                        regular_vertex_spec(n as int, radius as int, k).1 as i64,
                    ),
                forall|k: int| 0 <= k < i ==> point_in_unit_square(#[trigger] vertices@[k]),
            decreases n - i,
        {
            let p: (Fx, Fx) = polygon_vertex(n, radius, i);
            vertices.push(p);
            i = i + 1;
        }
        Polygon::new(vertices)
    }

    /// Create an equilateral triangle.
    pub fn triangle(radius: Fx) -> (r: Self)
        requires
            -FX_ONE <= radius <= FX_ONE,
        ensures
            r.vertices_view().len() == 3,
            r.in_unit_square(),
            forall|i: int|
                0 <= i < 3 ==> #[trigger] r.vertices_view()[i] == (
                    regular_vertex_spec(3, radius as int, i).0 as i64,
                    regular_vertex_spec(3, radius as int, i).1 as i64,
                ),
    {
        Polygon::regular(3, radius)
    }

    /// Create a pentagon.
    pub fn pentagon(radius: Fx) -> (r: Self)
        requires
            -FX_ONE <= radius <= FX_ONE,
        ensures
            r.vertices_view().len() == 5,
            r.in_unit_square(),
            forall|i: int|
                0 <= i < 5 ==> #[trigger] r.vertices_view()[i] == (
                    regular_vertex_spec(5, radius as int, i).0 as i64,
                    regular_vertex_spec(5, radius as int, i).1 as i64,
                ),
    {
        Polygon::regular(5, radius)
    }

    /// Create a hexagon.
    pub fn hexagon(radius: Fx) -> (r: Self)
        requires
            -FX_ONE <= radius <= FX_ONE,
        ensures
            r.vertices_view().len() == 6,
            r.in_unit_square(),
            forall|i: int|
                0 <= i < 6 ==> #[trigger] r.vertices_view()[i] == (
                    regular_vertex_spec(6, radius as int, i).0 as i64,
                    regular_vertex_spec(6, radius as int, i).1 as i64,
                ),
    {
        Polygon::regular(6, radius)
    }

    /// Create a star with `n` points, alternating between the outer and
    /// inner radius.
    pub fn star(n: usize, outer_radius: Fx, inner_radius: Fx) -> (r: Self)
        requires
            3 <= n <= 500_000_000,
            -FX_ONE <= outer_radius <= FX_ONE,
            -FX_ONE <= inner_radius <= FX_ONE,
        ensures
            r.vertices_view().len() == 2 * n,
            r.in_unit_square(),
            forall|i: int|
                0 <= i < 2 * n ==> #[trigger] r.vertices_view()[i] == (
                    star_vertex_spec(n as int, outer_radius as int, inner_radius as int, i).0
                        as i64,
                    star_vertex_spec(n as int, outer_radius as int, inner_radius as int, i).1
                        as i64,
                ),
    {
        let total: usize = 2 * n;
        let mut vertices: Vec<(Fx, Fx)> = Vec::new();
        let mut i: usize = 0;
        while i < total
            invariant
                6 <= total <= 1_000_000_000,
                total == 2 * n,
                -FX_ONE <= outer_radius <= FX_ONE,
                -FX_ONE <= inner_radius <= FX_ONE,
                i <= total,
                vertices@.len() == i,
                forall|k: int|
                    0 <= k < i ==> #[trigger] vertices@[k] == (
                        star_vertex_spec(n as int, outer_radius as int, inner_radius as int, k).0
                            as i64,
                        star_vertex_spec(n as int, outer_radius as int, inner_radius as int, k).1
                            as i64,
                    ),
                forall|k: int| 0 <= k < i ==> point_in_unit_square(#[trigger] vertices@[k]),
            decreases total - i,
        {
            let radius: Fx = if i % 2 == 0 {
                outer_radius
            } else {
                inner_radius
            };
            proof {
                vstd::arithmetic::div_mod::lemma_mod_bound(i as int, 2);
            }
            let p: (Fx, Fx) = polygon_vertex(total, radius, i);
            vertices.push(p);
            i = i + 1;
        }
        Polygon::new(vertices)
    }

    /// What sampling a well-formed polygon means, over its public view:
    /// the polyline walk over the vertex list's own edge lengths and their
    /// sum, at the wrapped parameter.
    pub proof fn lemma_sample_is_polyline_walk(&self, t: int)
        requires
            self.in_unit_square(),
        ensures
            ({
                let lengths = polyline_lengths_spec(
                    self.vertices_view(),
                    self.vertices_view().len() as int,
                );
                self.sample_spec(t) == polyline_sample_spec(
                    self.vertices_view(),
                    lengths,
                    sum_lengths(lengths) as i64,
                    t % (FX_ONE as int),
                )
            }),
            self.length_spec() == sum_lengths(
                polyline_lengths_spec(self.vertices_view(), self.vertices_view().len() as int),
            ),
    {
        let lengths = polyline_lengths_spec(self.vertices@, self.vertices@.len() as int);
        assert forall|i: int| 0 <= i < lengths.len() implies self.edge_lengths@[i]
            == lengths[i] by {}
        assert(self.edge_lengths@ =~= lengths);
    }

    /// Number of vertices.
    pub fn vertex_count(&self) -> (r: usize)
        ensures
            r == self.vertices_view().len(),
    {
        self.vertices.len()
    }
}

/// One vertex of a regular outline of `n` steps.
fn polygon_vertex(n: usize, radius: Fx, i: usize) -> (p: (Fx, Fx))
    requires
        1 <= n <= 1_000_000_000,
        i < n,
        -FX_ONE <= radius <= FX_ONE,
    ensures
        p.0 as int == regular_vertex_spec(n as int, radius as int, i as int).0,
        p.1 as int == regular_vertex_spec(n as int, radius as int, i as int).1,
        point_in_unit_square(p),
{
    assert(0 <= i as int * FX_ONE as int <= n as int * FX_ONE as int
        && n as int * FX_ONE as int <= 1_000_000_000_000_000int) by (nonlinear_arith)
        requires
            0 <= i as int <= n as int,
            n as int <= 1_000_000_000int,
    ;
    let wide: i128 = (i as i128) * (FX_ONE as i128);
    proof {
        vstd::arithmetic::div_mod::lemma_div_pos_is_pos(wide as int, n as int);
        vstd::arithmetic::div_mod::lemma_div_is_ordered(wide as int, n as int * FX_ONE as int,
            n as int);
        vstd::arithmetic::div_mod::lemma_div_multiples_vanish(FX_ONE as int, n as int);
    }
    let base: i64 = (wide / (n as i128)) as i64;
    let phase: Fx = fx_wrap(base - FX_QUARTER);
    let c: Fx = cos_turns(phase);
    let s: Fx = sin_turns(phase);
    let x: Fx = fx_mul(radius, c);
    let y: Fx = fx_mul(radius, s);
    proof {
        lemma_fx_mul_contract(radius as int, c as int);
        lemma_fx_mul_contract(radius as int, s as int);
    }
    (x, y)
}

impl Shape for Polygon {
    /// The polyline walk over the cached edge lengths, at the wrapped
    /// parameter.
    closed spec fn sample_spec(&self, t: int) -> (int, int) {
        polyline_sample_spec(
            self.vertices@,
            self.edge_lengths@,
            self.total_length,
            t % (FX_ONE as int),
        )
    }

    /// A polygon is confined when its stored vertices and cached lengths
    /// are well formed, which every constructor guarantees.
    closed spec fn in_unit_square(&self) -> bool {
        &&& polyline_wf(self.vertices@, self.edge_lengths@, self.total_length)
        &&& self.edge_lengths@.len() == self.vertices@.len()
    }

    open spec fn name_spec(&self) -> Seq<char> {
        "Polygon"@
    }

    closed spec fn length_spec(&self) -> int {
        self.total_length as int
    }

    open spec fn closed_spec(&self) -> bool {
        true
    }

    fn sample(&self, t: Fx) -> (r: (Fx, Fx)) {
        proof {
            use_type_invariant(&*self);
        }
        let tw: Fx = fx_wrap(t);
        polyline_sample(&self.vertices, &self.edge_lengths, self.total_length, tw)
    }

    fn name(&self) -> (r: &str) {
        "Polygon"
    }

    fn length(&self) -> (r: Fx) {
        self.total_length
    }

    fn is_closed(&self) -> (r: bool) {
        true
    }

    proof fn lemma_sample_in_unit_square(&self, t: int) {
        vstd::arithmetic::div_mod::lemma_mod_bound(t, FX_ONE as int);
        lemma_walk_in_square(
            self.vertices@,
            self.edge_lengths@,
            0,
            div_tz((t % (FX_ONE as int)) * self.total_length, FX_ONE as int),
        );
    }
}

} // verus!
