//! Raster image tracing: edge detection and point ordering.
//!
//! A grayscale image becomes a drawable outline in three steps: a Sobel
//! filter turns the pixels into edge magnitudes, pixels above a threshold
//! become points of the unit square, and a greedy nearest-neighbour pass
//! orders the points into a drawable sequence.  Glyph outlines reuse the
//! normalization step.

use vstd::prelude::*;

use crate::fx::{div_tz, Fx, FX_ONE};
use crate::geom::{is_sqrt_floor, isqrt, sqrt_floor};
use crate::primitives::{clamp_unit, clamp_unit_spec};

verus! {

/// The gray value of a pixel, inverted when asked.
pub open spec fn pixel_spec(pixels: Seq<u8>, w: int, invert: bool, x: int, y: int) -> int {
    if invert {
        255 - pixels[y * w + x]
    } else {
        pixels[y * w + x] as int
    }
}

/// The horizontal Sobel response at an interior pixel.
pub open spec fn sobel_gx_spec(pixels: Seq<u8>, w: int, invert: bool, x: int, y: int) -> int {
    -pixel_spec(pixels, w, invert, x - 1, y - 1) + pixel_spec(pixels, w, invert, x + 1, y - 1)
        - 2 * pixel_spec(pixels, w, invert, x - 1, y) + 2 * pixel_spec(pixels, w, invert, x + 1, y)
        - pixel_spec(pixels, w, invert, x - 1, y + 1) + pixel_spec(pixels, w, invert, x + 1, y + 1)
}

/// The vertical Sobel response at an interior pixel.
pub open spec fn sobel_gy_spec(pixels: Seq<u8>, w: int, invert: bool, x: int, y: int) -> int {
    -pixel_spec(pixels, w, invert, x - 1, y - 1) - 2 * pixel_spec(pixels, w, invert, x, y - 1)
        - pixel_spec(pixels, w, invert, x + 1, y - 1) + pixel_spec(pixels, w, invert, x - 1, y + 1)
        + 2 * pixel_spec(pixels, w, invert, x, y + 1) + pixel_spec(pixels, w, invert, x + 1, y + 1)
}

/// The gradient magnitude at an interior pixel, rounded down; zero on the
/// border.
pub open spec fn sobel_magnitude_spec(
    pixels: Seq<u8>,
    w: int,
    h: int,
    invert: bool,
    x: int,
    y: int,
) -> int {
    if 1 <= x < w - 1 && 1 <= y < h - 1 {
        let gx = sobel_gx_spec(pixels, w, invert, x, y);
        let gy = sobel_gy_spec(pixels, w, invert, x, y);
        sqrt_floor(gx * gx + gy * gy)
    } else {
        0
    }
}

/// The largest value of a sequence, or zero if empty.
pub open spec fn max_of(s: Seq<i64>) -> int
    decreases s.len(),
{
    if s.len() == 0 {
        0
    } else if s.last() as int >= max_of(s.drop_last()) {
        s.last() as int
    } else {
        max_of(s.drop_last())
    }
}

/// The gray value of a pixel, inverted when asked.
fn pixel_at(pixels: &Vec<u8>, w: usize, invert: bool, x: usize, y: usize) -> (r: i64)
    requires
        y * w + x < pixels@.len(),
        x < w <= 32_768,
        y < 32_768,
    ensures
        r as int == pixel_spec(pixels@, w as int, invert, x as int, y as int),
        0 <= r <= 255,
{
    assert(0 <= y as int * w as int && (y as int * w as int + x as int) < 1_073_741_824int)
        by (nonlinear_arith)
        requires
            0 <= y as int,
            (y as int) < 32_768,
            0 <= x as int,
            (x as int) < w as int,
            w as int <= 32_768,
    ;
    let v: u8 = pixels[y * w + x];
    if invert {
        255 - (v as i64)
    } else {
        v as i64
    }
}

/// Apply Sobel edge detection to a grayscale image held in row-major
/// order.  The result holds, per pixel, the gradient magnitude scaled so
/// that the strongest edge is one unit; border pixels are zero.
pub fn sobel_edge_detection(pixels: &Vec<u8>, width: usize, height: usize, invert: bool) -> (r:
    Vec<Fx>)
    requires
        pixels@.len() == width * height,
        width <= 32_768,
        height <= 32_768,
    ensures
        r@.len() == width * height,
        forall|x: int, y: int|
            0 <= x < width && 0 <= y < height ==> #[trigger] r@[y * width + x] as int == ({
                let m = all_magnitudes_spec(pixels@, width as int, height as int, invert);
                if max_of(m) > 0 {
                    div_tz(
                        sobel_magnitude_spec(pixels@, width as int, height as int, invert, x, y)
                            * FX_ONE,
                        max_of(m),
                    )
                } else {
                    0
                }
            }),
{
    let raw: Vec<i64> = raw_magnitudes(pixels, width, height, invert);
    let mut max_val: i64 = 0;
    let mut i: usize = 0;
    while i < raw.len()
        invariant
            i <= raw@.len(),
            max_val as int == max_of(raw@.subrange(0, i as int)),
            0 <= max_val,
        decreases raw@.len() - i,
    {
        proof {
            assert(raw@.subrange(0, i as int + 1).drop_last() =~= raw@.subrange(0, i as int));
        }
        if raw[i] > max_val {
            max_val = raw[i];
        }
        i = i + 1;
    }
    proof {
        assert(raw@.subrange(0, raw@.len() as int) =~= raw@);
    }
    let mut r: Vec<Fx> = Vec::new();
    let mut j: usize = 0;
    while j < raw.len()
        invariant
            j <= raw@.len(),
            raw@.len() == width * height,
            max_val as int == max_of(raw@),
            0 <= max_val,
            forall|k: int| 0 <= k < raw@.len() ==> 0 <= #[trigger] raw@[k] <= 1_443,
            raw_all_magnitudes(pixels@, width as int, height as int, invert, raw@),
            r@.len() == j,
            forall|k: int|
                0 <= k < j ==> #[trigger] r@[k] as int == if max_of(raw@) > 0 {
                    div_tz(raw@[k] * FX_ONE, max_of(raw@))
                } else {
                    0
                },
        decreases raw@.len() - j,
    {
        let scaled: i64 = if max_val > 0 {
            assert(0 <= raw@[j as int] <= 1_443);
            assert(0 <= raw@[j as int] as int * 1_000_000int <= 1_443_000_000int)
                by (nonlinear_arith)
                requires
                    0 <= raw@[j as int] as int,
                    raw@[j as int] as int <= 1_443,
            ;
            let wide: i128 = (raw[j] as i128) * (FX_ONE as i128);
            proof {
                vstd::arithmetic::div_mod::lemma_div_pos_is_pos(wide as int, max_val as int);
                lemma_max_of_bound(raw@, j as int);
                vstd::arithmetic::mul::lemma_mul_inequality(raw@[j as int] as int,
                    max_val as int, FX_ONE as int);
                vstd::arithmetic::div_mod::lemma_div_is_ordered(wide as int,
                    max_val as int * FX_ONE as int, max_val as int);
                vstd::arithmetic::div_mod::lemma_div_multiples_vanish(FX_ONE as int,
                    max_val as int);
                assert(max_val as int * FX_ONE as int == FX_ONE as int * max_val as int)
                    by (nonlinear_arith);
            }
            (wide / (max_val as i128)) as i64
        } else {
            0
        };
        r.push(scaled);
        j = j + 1;
    }
    proof {
        assert forall|x: int, y: int| 0 <= x < width && 0 <= y < height implies #[trigger] r@[y
            * width + x] as int == ({
            let m = all_magnitudes_spec(pixels@, width as int, height as int, invert);
            if max_of(m) > 0 {
                div_tz(
                    sobel_magnitude_spec(pixels@, width as int, height as int, invert, x, y)
                        * FX_ONE,
                    max_of(m),
                )
            } else {
                0
            }
        }) by {
            lemma_row_major_bound(x, y, width as int, height as int);
            assert forall|k: int| 0 <= k < raw@.len() implies raw@[k] == all_magnitudes_spec(
                pixels@, width as int, height as int, invert)[k] by {
                vstd::arithmetic::div_mod::lemma_mod_bound(k, width as int);
                vstd::arithmetic::div_mod::lemma_fundamental_div_mod(k, width as int);
                assert((k / width as int) < height as int && 0 <= k / width as int)
                    by (nonlinear_arith)
                    requires
                        0 <= k,
                        k < width as int * height as int,
                        k == width as int * (k / width as int) + k % width as int,
                        0 <= k % width as int,
                        (k % width as int) < width as int,
                        width as int > 0,
                        height as int > 0,
                ;
                lemma_row_major_bound(k % width as int, k / width as int, width as int,
                    height as int);
            }
            assert(raw@ =~= all_magnitudes_spec(pixels@, width as int, height as int, invert));
        }
    }
    r
}

/// Every magnitude of an image, in row-major order.
pub open spec fn all_magnitudes_spec(pixels: Seq<u8>, w: int, h: int, invert: bool) -> Seq<i64> {
    Seq::new(
        (w * h) as nat,
        |k: int| sobel_magnitude_spec(pixels, w, h, invert, k % w, k / w) as i64,
    )
}

/// A sequence holds exactly the image's magnitudes.
pub open spec fn raw_all_magnitudes(
    pixels: Seq<u8>,
    w: int,
    h: int,
    invert: bool,
    raw: Seq<i64>,
) -> bool {
    &&& raw.len() == w * h
    &&& forall|x: int, y: int|
        0 <= x < w && 0 <= y < h ==> #[trigger] raw[y * w + x] as int == sobel_magnitude_spec(
            pixels,
            w,
            h,
            invert,
            x,
            y,
        )
}

/// A member of a sequence never exceeds its maximum.
proof fn lemma_max_of_bound(s: Seq<i64>, i: int)
    requires
        0 <= i < s.len(),
    ensures
        s[i] as int <= max_of(s),
    decreases s.len(),
{
    if i + 1 == s.len() {
    } else {
        lemma_max_of_bound(s.drop_last(), i);
    }
}

/// A row-major index stays inside the image.
proof fn lemma_row_major_bound(x: int, y: int, w: int, h: int)
    requires
        0 <= x < w,
        0 <= y < h,
    ensures
        0 <= y * w + x < w * h,
        (y * w + x) % w == x,
        (y * w + x) / w == y,
{
    assert(0 <= y * w + x && y * w + x <= (h - 1) * w + x && (h - 1) * w + x < w * h)
        by (nonlinear_arith)
        requires
            0 <= x < w,
            0 <= y < h,
    ;
    vstd::arithmetic::div_mod::lemma_fundamental_div_mod_converse(y * w + x, w, y, x);
}

/// The raw gradient magnitudes of every pixel, row-major.
fn raw_magnitudes(pixels: &Vec<u8>, width: usize, height: usize, invert: bool) -> (raw: Vec<i64>)
    requires
        pixels@.len() == width * height,
        width <= 32_768,
        height <= 32_768,
    ensures
        raw_all_magnitudes(pixels@, width as int, height as int, invert, raw@),
        forall|k: int| 0 <= k < raw@.len() ==> 0 <= #[trigger] raw@[k] <= 1_443,
{
    assert(width * height <= 32_768 * 32_768) by (nonlinear_arith)
        requires
            width <= 32_768,
            height <= 32_768,
    ;
    let total: usize = width * height;
    let mut raw: Vec<i64> = Vec::new();
    let mut k: usize = 0;
    while k < total
        invariant
            k <= total,
            total == width * height,
            pixels@.len() == width * height,
            width <= 32_768,
            height <= 32_768,
            raw@.len() == k,
            forall|j: int|
                0 <= j < k ==> #[trigger] raw@[j] as int == sobel_magnitude_spec(pixels@,
                    width as int, height as int, invert, j % width as int, j / width as int),
            forall|j: int| 0 <= j < k ==> 0 <= #[trigger] raw@[j] <= 1_443,
        decreases total - k,
    {
        let x: usize = k % width;
        let y: usize = k / width;
        proof {
            vstd::arithmetic::div_mod::lemma_mod_bound(k as int, width as int);
            vstd::arithmetic::div_mod::lemma_fundamental_div_mod(k as int, width as int);
            assert((k as int / width as int) < height as int) by (nonlinear_arith)
                requires
                    (k as int) < width as int * height as int,
                    k as int == width as int * (k as int / width as int) + k as int
                        % width as int,
                    0 <= k as int % width as int,
                    (k as int % width as int) < width as int,
                    width as int > 0,
                    height as int > 0,
            ;
        }
        let m: i64 = magnitude_at(pixels, width, height, invert, x, y);
        raw.push(m);
        k = k + 1;
    }
    proof {
        assert forall|x: int, y: int| 0 <= x < width && 0 <= y < height implies #[trigger] raw@[y
            * width as int + x] as int == sobel_magnitude_spec(pixels@, width as int,
            height as int, invert, x, y) by {
            lemma_row_major_bound(x, y, width as int, height as int);
        }
    }
    raw
}

/// The gradient magnitude of one pixel.
fn magnitude_at(pixels: &Vec<u8>, width: usize, height: usize, invert: bool, x: usize, y: usize)
    -> (m: i64)
    requires
        pixels@.len() == width * height,
        x < width,
        y < height,
        width <= 32_768,
        height <= 32_768,
    ensures
        m as int == sobel_magnitude_spec(pixels@, width as int, height as int, invert, x as int,
            y as int),
        0 <= m <= 1_443,
{
    if x >= 1 && x + 1 < width && y >= 1 && y + 1 < height {
        proof {
            assert forall|xx: int, yy: int|
                0 <= xx < width && 0 <= yy < height implies 0 <= #[trigger] (yy * width as int
                + xx) < pixels@.len() by {
                lemma_row_major_bound(xx, yy, width as int, height as int);
            }
        }
        let p00: i64 = pixel_at(pixels, width, invert, x - 1, y - 1);
        let p10: i64 = pixel_at(pixels, width, invert, x, y - 1);
        let p20: i64 = pixel_at(pixels, width, invert, x + 1, y - 1);
        let p01: i64 = pixel_at(pixels, width, invert, x - 1, y);
        let p21: i64 = pixel_at(pixels, width, invert, x + 1, y);
        let p02: i64 = pixel_at(pixels, width, invert, x - 1, y + 1);
        let p12: i64 = pixel_at(pixels, width, invert, x, y + 1);
        let p22: i64 = pixel_at(pixels, width, invert, x + 1, y + 1);
        let gx: i64 = -p00 + p20 - 2 * p01 + 2 * p21 - p02 + p22;
        let gy: i64 = -p00 - 2 * p10 - p20 + p02 + 2 * p12 + p22;
        assert(0 <= gx as int * gx as int <= 1_040_400int && 0 <= gy as int * gy as int
            <= 1_040_400int) by (nonlinear_arith)
            requires
                -1020 <= gx as int <= 1020,
                -1020 <= gy as int <= 1020,
        ;
        let sq: u64 = ((gx * gx) + (gy * gy)) as u64;
        let m: u64 = isqrt(sq);
        proof {
            assert(is_sqrt_floor(sq as int, m as int));
            assert(m as int <= 1_443) by (nonlinear_arith)
                requires
                    0 <= m as int,
                    (m as int) * (m as int) <= 2_080_800int,
            ;
        }
        m as i64
    } else {
        0
    }
}

/// A detected edge pixel, as a point of the unit square: the pixel grid is
/// centred and scaled by its larger dimension, with the Y axis flipped.
pub open spec fn edge_point_spec(w: int, h: int, x: int, y: int) -> (int, int) {
    let scale = if w >= h {
        w
    } else {
        h
    };
    (
        clamp_unit_spec(div_tz((2 * x - w) * FX_ONE, scale)),
        clamp_unit_spec(-div_tz((2 * y - h) * FX_ONE, scale)),
    )
}

/// The points the first `k` cells of an edge image yield: each cell at or
/// above both thresholds becomes its normalized point, in row-major order.
pub open spec fn extract_spec(
    edges: Seq<i64>,
    w: int,
    h: int,
    threshold: int,
    edge_min: int,
    k: int,
) -> Seq<(i64, i64)>
    decreases k,
{
    if k <= 0 {
        Seq::empty()
    } else {
        let prev = extract_spec(edges, w, h, threshold, edge_min, k - 1);
        if edges[k - 1] >= threshold && edges[k - 1] >= edge_min {
            let p = edge_point_spec(w, h, (k - 1) % w, (k - 1) / w);
            prev.push((p.0 as i64, p.1 as i64))
        } else {
            prev
        }
    }
}

/// Extract the points whose edge value reaches the threshold, in row-major
/// order, normalized into the unit square.
pub fn extract_edge_points(
    edges: &Vec<Fx>,
    width: usize,
    height: usize,
    threshold: Fx,
    edge_min: Fx,
) -> (r: Vec<(Fx, Fx)>)
    requires
        edges@.len() == width * height,
        1 <= width <= 32_768,
        1 <= height <= 32_768,
    ensures
        r@ == extract_spec(edges@, width as int, height as int, threshold as int,
            edge_min as int, (width * height) as int),
        forall|k: int|
            0 <= k < r@.len() ==> crate::geom::point_in_unit_square(#[trigger] r@[k]),
        r@.len() <= edges@.len(),
{
    assert(width * height <= 32_768 * 32_768 && width * height >= 1) by (nonlinear_arith)
        requires
            1 <= width <= 32_768,
            1 <= height <= 32_768,
    ;
    let total: usize = width * height;
    let scale: usize = if width >= height {
        width
    } else {
        height
    };
    let mut r: Vec<(Fx, Fx)> = Vec::new();
    let mut k: usize = 0;
    while k < total
        invariant
            k <= total,
            total == width * height,
            edges@.len() == width * height,
            1 <= width <= 32_768,
            1 <= height <= 32_768,
            scale as int == if width >= height {
                width as int
            } else {
                height as int
            },
            forall|j: int|
                0 <= j < r@.len() ==> crate::geom::point_in_unit_square(#[trigger] r@[j]),
            r@.len() <= k,
            r@ == extract_spec(edges@, width as int, height as int, threshold as int,
                edge_min as int, k as int),
        decreases total - k,
    {
        let v: Fx = edges[k];
        if v >= threshold && v >= edge_min {
            let x: usize = k % width;
            let y: usize = k / width;
            proof {
                vstd::arithmetic::div_mod::lemma_mod_bound(k as int, width as int);
                vstd::arithmetic::div_mod::lemma_fundamental_div_mod(k as int, width as int);
                assert((k as int / width as int) < height as int) by (nonlinear_arith)
                    requires
                        (k as int) < width as int * height as int,
                        k as int == width as int * (k as int / width as int) + k as int
                            % width as int,
                        0 <= k as int % width as int,
                        (k as int % width as int) < width as int,
                        width as int > 0,
                        height as int > 0,
                ;
            }
            assert(-65600000000int <= (2 * (x as int) - width as int) * 1_000_000int
                <= 65600000000int && -65600000000int <= (2 * (y as int) - height as int)
                * 1_000_000int <= 65600000000int) by (nonlinear_arith)
                requires
                    0 <= x as int,
                    (x as int) < width as int,
                    width as int <= 32_768,
                    0 <= y as int,
                    (y as int) < height as int,
                    height as int <= 32_768,
            ;
            let nx: i128 = ((2 * (x as i128)) - width as i128) * (FX_ONE as i128);
            let ny: i128 = ((2 * (y as i128)) - height as i128) * (FX_ONE as i128);
            let px: Fx = clamp_unit(wide_div_small(nx, scale as i64));
            let py: Fx = {
                let q: i64 = wide_div_small(ny, scale as i64);
                clamp_unit(-q)
            };
            r.push((px, py));
        }
        k = k + 1;
    }
    r
}

/// The least X coordinate among the points.
pub open spec fn min_x_of(s: Seq<(i64, i64)>) -> int
    decreases s.len(),
{
    if s.len() <= 1 {
        s[0].0 as int
    } else if (s.last().0 as int) < min_x_of(s.drop_last()) {
        s.last().0 as int
    } else {
        min_x_of(s.drop_last())
    }
}

/// The greatest X coordinate among the points.
pub open spec fn max_x_of(s: Seq<(i64, i64)>) -> int
    decreases s.len(),
{
    if s.len() <= 1 {
        s[0].0 as int
    } else if (s.last().0 as int) > max_x_of(s.drop_last()) {
        s.last().0 as int
    } else {
        max_x_of(s.drop_last())
    }
}

/// The least Y coordinate among the points.
pub open spec fn min_y_of(s: Seq<(i64, i64)>) -> int
    decreases s.len(),
{
    if s.len() <= 1 {
        s[0].1 as int
    } else if (s.last().1 as int) < min_y_of(s.drop_last()) {
        s.last().1 as int
    } else {
        min_y_of(s.drop_last())
    }
}

/// The greatest Y coordinate among the points.
pub open spec fn max_y_of(s: Seq<(i64, i64)>) -> int
    decreases s.len(),
{
    if s.len() <= 1 {
        s[0].1 as int
    } else if (s.last().1 as int) > max_y_of(s.drop_last()) {
        s.last().1 as int
    } else {
        max_y_of(s.drop_last())
    }
}

/// A point normalized against a bounding box: centred, scaled by the
/// larger box dimension, Y flipped, clamped into the unit square.
pub open spec fn normalized_point_spec(p: (i64, i64), s: Seq<(i64, i64)>) -> (int, int) {
    let w = max_x_of(s) - min_x_of(s);
    let h = max_y_of(s) - min_y_of(s);
    let scale = if w >= h {
        w
    } else {
        h
    };
    (
        clamp_unit_spec(div_tz((2 * p.0 - min_x_of(s) - max_x_of(s)) * FX_ONE, scale)),
        clamp_unit_spec(-div_tz((2 * p.1 - min_y_of(s) - max_y_of(s)) * FX_ONE, scale)),
    )
}

/// Normalize points into the unit square, centred: the bounding box is
/// scaled by its larger dimension and the Y axis flipped for screen
/// coordinates.  Degenerate input (a single position) is returned as it
/// is.
pub fn normalize_points(points: &Vec<(Fx, Fx)>) -> (r: Vec<(Fx, Fx)>)
    ensures
        r@.len() == points@.len(),
        points@.len() > 0 && max_x_of(points@) - min_x_of(points@) <= 0 && max_y_of(points@)
            - min_y_of(points@) <= 0 ==> r@ == points@,
        points@.len() > 0 && (max_x_of(points@) - min_x_of(points@) > 0 || max_y_of(points@)
            - min_y_of(points@) > 0) ==> forall|i: int|
            0 <= i < points@.len() ==> #[trigger] r@[i] == (
                normalized_point_spec(points@[i], points@).0 as i64,
                normalized_point_spec(points@[i], points@).1 as i64,
            ),
{
    if points.len() == 0 {
        return Vec::new();
    }
    let first: (Fx, Fx) = points[0];
    let mut min_x: i64 = first.0;
    let mut max_x: i64 = first.0;
    let mut min_y: i64 = first.1;
    let mut max_y: i64 = first.1;
    let mut i: usize = 1;
    while i < points.len()
        invariant
            1 <= i <= points@.len(),
            min_x as int == min_x_of(points@.subrange(0, i as int)),
            max_x as int == max_x_of(points@.subrange(0, i as int)),
            min_y as int == min_y_of(points@.subrange(0, i as int)),
            max_y as int == max_y_of(points@.subrange(0, i as int)),
        decreases points@.len() - i,
    {
        proof {
            assert(points@.subrange(0, i as int + 1).drop_last() =~= points@.subrange(
                0,
                i as int,
            ));
        }
        let p: (Fx, Fx) = points[i];
        if p.0 < min_x {
            min_x = p.0;
        }
        if p.0 > max_x {
            max_x = p.0;
        }
        if p.1 < min_y {
            min_y = p.1;
        }
        if p.1 > max_y {
            max_y = p.1;
        }
        i = i + 1;
    }
    proof {
        assert(points@.subrange(0, points@.len() as int) =~= points@);
    }
    let width: i128 = max_x as i128 - min_x as i128;
    let height: i128 = max_y as i128 - min_y as i128;
    let scale: i128 = if width >= height {
        width
    } else {
        height
    };
    if scale <= 0 {
        let mut copy: Vec<(Fx, Fx)> = Vec::new();
        let mut j: usize = 0;
        while j < points.len()
            invariant
                j <= points@.len(),
                copy@ =~= points@.subrange(0, j as int),
            decreases points@.len() - j,
        {
            copy.push(points[j]);
            proof {
                assert(copy@ =~= points@.subrange(0, j as int + 1));
            }
            j = j + 1;
        }
        proof {
            assert(copy@ =~= points@);
        }
        return copy;
    }
    let mut r: Vec<(Fx, Fx)> = Vec::new();
    let mut j: usize = 0;
    while j < points.len()
        invariant
            j <= points@.len(),
            min_x as int == min_x_of(points@),
            max_x as int == max_x_of(points@),
            min_y as int == min_y_of(points@),
            max_y as int == max_y_of(points@),
            scale as int == ({
                let w = max_x_of(points@) - min_x_of(points@);
                let h = max_y_of(points@) - min_y_of(points@);
                if w >= h {
                    w
                } else {
                    h
                }
            }),
            scale > 0,
            r@.len() == j,
            forall|k: int|
                0 <= k < j ==> #[trigger] r@[k] == (
                    normalized_point_spec(points@[k], points@).0 as i64,
                    normalized_point_spec(points@[k], points@).1 as i64,
                ),
        decreases points@.len() - j,
    {
        let p: (Fx, Fx) = points[j];
        assert((2 * (p.0 as int) - min_x as int - max_x as int) * 1_000_000int
            <= 40000000000000000000000000int && (2 * (p.0 as int) - min_x as int
            - max_x as int) * 1_000_000int >= -40000000000000000000000000int
            && (2 * (p.1 as int) - min_y as int - max_y as int) * 1_000_000int
            <= 40000000000000000000000000int && (2 * (p.1 as int) - min_y as int
            - max_y as int) * 1_000_000int >= -40000000000000000000000000int)
            by (nonlinear_arith)
            requires
                i64::MIN as int <= p.0 as int <= i64::MAX as int,
                i64::MIN as int <= p.1 as int <= i64::MAX as int,
                i64::MIN as int <= min_x as int <= i64::MAX as int,
                i64::MIN as int <= max_x as int <= i64::MAX as int,
                i64::MIN as int <= min_y as int <= i64::MAX as int,
                i64::MIN as int <= max_y as int <= i64::MAX as int,
        ;
        let nx_wide: i128 = (2 * (p.0 as i128) - min_x as i128 - max_x as i128) * (
        FX_ONE as i128);
        let ny_wide: i128 = (2 * (p.1 as i128) - min_y as i128 - max_y as i128) * (
        FX_ONE as i128);
        let nx: Fx = clamp_wide_div(nx_wide, scale);
        let ny_raw: Fx = clamp_wide_div(ny_wide, scale);
        let ny: Fx = -ny_raw;
        proof {
            lemma_clamp_neg(
                div_tz(
                    (2 * p.1 - min_y_of(points@) - max_y_of(points@)) * FX_ONE,
                    scale as int,
                ),
            );
        }
        r.push((nx, ny));
        j = j + 1;
    }
    r
}

/// The index the next greedy step picks, scanning from `i` with `best`
/// the best so far: the first unused point strictly closer to `from` than
/// every unused point before it.
pub open spec fn scan_best_spec(
    pts: Seq<(i64, i64)>,
    used: Seq<bool>,
    from: (i64, i64),
    i: int,
    best: Option<int>,
) -> Option<int>
    decreases pts.len() - i,
{
    if i < 0 || i >= pts.len() {
        best
    } else {
        let better = !used[i] && match best {
            Option::None => true,
            Option::Some(b) => crate::geom::sq_dist_spec(from, pts[i]) < crate::geom::sq_dist_spec(
                from,
                pts[b],
            ),
        };
        scan_best_spec(
            pts,
            used,
            from,
            i + 1,
            if better {
                Option::Some(i)
            } else {
                best
            },
        )
    }
}

/// The points a greedy nearest-neighbour walk visits in `k` more steps
/// from the point at `current`, marking each visited point used.
pub open spec fn greedy_order_spec(
    pts: Seq<(i64, i64)>,
    used: Seq<bool>,
    current: int,
    k: int,
) -> Seq<(i64, i64)>
    decreases k,
{
    if k <= 0 {
        Seq::empty()
    } else {
        match scan_best_spec(pts, used, pts[current], 0, Option::None) {
            Option::Some(b) => seq![pts[b]] + greedy_order_spec(pts, used.update(b, true), b, k - 1),
            Option::None => Seq::empty(),
        }
    }
}

/// The greedy nearest-neighbour order of a point set: the point nearest
/// the origin first, then always the nearest unused point.  Two points or
/// fewer keep their order.
pub open spec fn nn_sorted_spec(working: Seq<(i64, i64)>) -> Seq<(i64, i64)> {
    if working.len() <= 2 {
        working
    } else {
        let fresh = Seq::new(working.len(), |i: int| false);
        match scan_best_spec(working, fresh, (0, 0), 0, Option::None) {
            Option::Some(c0) => seq![working[c0]] + greedy_order_spec(
                working,
                fresh.update(c0, true),
                c0,
                working.len() - 1,
            ),
            Option::None => working,
        }
    }
}

/// The stride a point set is thinned by before ordering.
pub open spec fn subsample_step_spec(n: int, max_points: int) -> int {
    if n > max_points && n / max_points > 1 {
        n / max_points
    } else {
        1
    }
}

/// Every `step`-th point of a set.
pub open spec fn subsample_spec(pts: Seq<(i64, i64)>, step: int) -> Seq<(i64, i64)> {
    Seq::new(((pts.len() + step - 1) / step) as nat, |k: int| pts[k * step])
}

/// Scan for the nearest unused point.
fn scan_best(pts: &Vec<(Fx, Fx)>, used: &Vec<bool>, from: (Fx, Fx)) -> (r: Option<usize>)
    requires
        used@.len() == pts@.len(),
        crate::geom::point_in_unit_square(from),
        forall|i: int| 0 <= i < pts@.len() ==> crate::geom::point_in_unit_square(#[trigger] pts@[i]),
    ensures
        match scan_best_spec(pts@, used@, from, 0, Option::None) {
            Option::Some(b) => r is Some && r.unwrap() as int == b && b < pts@.len(),
            Option::None => r is None,
        },
{
    let mut best: Option<usize> = None;
    let mut j: usize = 0;
    while j < pts.len()
        invariant
            j <= pts@.len(),
            used@.len() == pts@.len(),
            crate::geom::point_in_unit_square(from),
            forall|i: int|
                0 <= i < pts@.len() ==> crate::geom::point_in_unit_square(#[trigger] pts@[i]),
            match best {
                Option::Some(b) => b < pts@.len(),
                Option::None => true,
            },
            scan_best_spec(pts@, used@, from, 0, Option::None) == scan_best_spec(
                pts@,
                used@,
                from,
                j as int,
                match best {
                    Option::Some(b) => Option::Some(b as int),
                    Option::None => Option::<int>::None,
                },
            ),
        decreases pts@.len() - j,
    {
        let better: bool = if used[j] {
            false
        } else {
            match best {
                Option::Some(b) => {
                    crate::geom::sq_dist(from, pts[j]) < crate::geom::sq_dist(from, pts[b])
                },
                Option::None => true,
            }
        };
        if better {
            best = Some(j);
        }
        j = j + 1;
    }
    best
}

/// Order points for drawing: thin the set to at most `max_points`, then
/// start at the point nearest the origin and repeatedly jump to the
/// nearest unused point.
pub fn sort_points_nearest_neighbor(points: &Vec<(Fx, Fx)>, max_points: usize) -> (r: Vec<
    (Fx, Fx),
>)
    requires
        max_points >= 1,
        points@.len() <= 1_000_000_000,
        forall|i: int|
            0 <= i < points@.len() ==> crate::geom::point_in_unit_square(#[trigger] points@[i]),
    ensures
        r@ == nn_sorted_spec(
            subsample_spec(
                points@,
                subsample_step_spec(points@.len() as int, max_points as int),
            ),
        ),
{
    if points.len() == 0 {
        proof {
            let step = subsample_step_spec(points@.len() as int, max_points as int);
            assert(subsample_spec(points@, step) =~= Seq::<(i64, i64)>::empty());
        }
        return Vec::new();
    }
    let step: usize = if points.len() > max_points {
        let s: usize = points.len() / max_points;
        if s < 1 {
            1
        } else {
            s
        }
    } else {
        1
    };
    proof {
        vstd::arithmetic::div_mod::lemma_div_pos_is_pos(points@.len() as int, max_points as int);
        assert(step as int == subsample_step_spec(points@.len() as int, max_points as int));
    }
    let mut working: Vec<(Fx, Fx)> = Vec::new();
    let mut i: usize = 0;
    while i < points.len()
        invariant
            step >= 1,
            points@.len() <= 1_000_000_000,
            step <= points@.len(),
            i == working@.len() * step,
            working@.len() == 0 || (working@.len() - 1) * step < points@.len(),
            forall|k: int| 0 <= k < working@.len() ==> #[trigger] working@[k] == points@[k * step],
            forall|k: int|
                0 <= k < working@.len() ==> crate::geom::point_in_unit_square(
                    #[trigger] working@[k],
                ),
            forall|k: int|
                0 <= k < points@.len() ==> crate::geom::point_in_unit_square(
                    #[trigger] points@[k],
                ),
        decreases points@.len() + step - i,
    {
        proof {
            assert(working@.len() * step + step == (working@.len() + 1) * step)
                by (nonlinear_arith);
        }
        working.push(points[i]);
        i = i + step;
    }
    proof {
        let n = points@.len() as int;
        let k = working@.len() as int;
        assert(k >= 1);
        assert(k * step <= n + step - 1 && n <= k * step) by (nonlinear_arith)
            requires
                i as int == k * step,
                i as int >= n,
                k >= 1,
                (k - 1) * step < n,
                step >= 1,
        ;
        vstd::arithmetic::div_mod::lemma_fundamental_div_mod_converse(
            n + step - 1,
            step as int,
            k,
            n + step - 1 - k * step,
        );
        assert(working@ =~= subsample_spec(points@, step as int));
    }
    if working.len() <= 2 {
        return working;
    }
    let n: usize = working.len();
    let mut used: Vec<bool> = Vec::new();
    let mut u: usize = 0;
    while u < n
        invariant
            u <= n,
            used@.len() == u,
            forall|k: int| 0 <= k < u ==> !(#[trigger] used@[k]),
        decreases n - u,
    {
        used.push(false);
        u = u + 1;
    }
    proof {
        assert(used@ =~= Seq::new(working@.len(), |i: int| false));
    }
    let first: Option<usize> = scan_best(&working, &used, (0, 0));
    let c0: usize = match first {
        Some(c) => c,
        None => {
            return working;
        },
    };
    let mut result: Vec<(Fx, Fx)> = Vec::new();
    let ghost full = nn_sorted_spec(working@);
    result.push(working[c0]);
    used.set(c0, true);
    let mut current: usize = c0;
    proof {
        assert(used@ =~= Seq::new(working@.len(), |i: int| false).update(c0 as int, true));
        assert(full =~= result@ + greedy_order_spec(working@, used@, current as int, working@.len()
            - result@.len()));
    }
    while result.len() < n
        invariant
            n == working@.len(),
            used@.len() == n,
            1 <= result@.len() <= n,
            current < n,
            forall|k: int|
                0 <= k < working@.len() ==> crate::geom::point_in_unit_square(
                    #[trigger] working@[k],
                ),
            full == result@ + greedy_order_spec(working@, used@, current as int, n
                - result@.len()),
            full == nn_sorted_spec(
                subsample_spec(
                    points@,
                    subsample_step_spec(points@.len() as int, max_points as int),
                ),
            ),
        decreases n - result@.len(),
    {
        let next: Option<usize> = scan_best(&working, &used, working[current]);
        match next {
            Some(b) => {
                let ghost pre_used = used@;
                let ghost pre_result = result@;
                result.push(working[b]);
                used.set(b, true);
                current = b;
                proof {
                    assert(pre_result + (seq![working@[b as int]] + greedy_order_spec(working@,
                        pre_used.update(b as int, true), b as int, n - pre_result.len() - 1))
                        =~= result@ + greedy_order_spec(working@, used@, current as int, n
                        - result@.len()));
                }
            },
            None => {
                proof {
                    assert(greedy_order_spec(working@, used@, current as int, n - result@.len())
                        =~= Seq::<(i64, i64)>::empty());
                    assert(full =~= result@);
                }
                return result;
            },
        }
    }
    proof {
        assert(greedy_order_spec(working@, used@, current as int, 0) =~= Seq::<(i64, i64)>::empty());
        assert(full =~= result@);
    }
    result
}

/// Clamping commutes with negation.
proof fn lemma_clamp_neg(v: int)
    ensures
        -clamp_unit_spec(v) == clamp_unit_spec(-v),
{
}

/// Divides a wide value by a positive divisor, truncating toward zero,
/// then clamps the quotient into the unit interval.
fn clamp_wide_div(v: i128, d: i128) -> (r: Fx)
    requires
        d >= 1,
        -100000000000000000000000000int <= v as int <= 100000000000000000000000000int,
    ensures
        r as int == clamp_unit_spec(div_tz(v as int, d as int)),
        -FX_ONE <= r <= FX_ONE,
{
    let q: i128 = if v >= 0 {
        v / d
    } else {
        -((-v) / d)
    };
    if q < -(FX_ONE as i128) {
        -FX_ONE
    } else if q > FX_ONE as i128 {
        FX_ONE
    } else {
        q as i64
    }
}

/// Divides a small wide value by a positive divisor, truncating toward
/// zero; the result is clamped by the caller, so only the value matters.
fn wide_div_small(v: i128, d: i64) -> (r: i64)
    requires
        d >= 1,
        -200_000_000_000_000int <= v as int <= 200_000_000_000_000int,
    ensures
        r as int == div_tz(v as int, d as int),
        -200_000_000_000_000int <= r as int <= 200_000_000_000_000int,
{
    let q: i128 = if v >= 0 {
        v / (d as i128)
    } else {
        -((-v) / (d as i128))
    };
    proof {
        if v >= 0 {
            vstd::arithmetic::div_mod::lemma_div_pos_is_pos(v as int, d as int);
            vstd::arithmetic::div_mod::lemma_div_nonincreasing(v as int, d as int);
        } else {
            vstd::arithmetic::div_mod::lemma_div_pos_is_pos(-(v as int), d as int);
            vstd::arithmetic::div_mod::lemma_div_nonincreasing(-(v as int), d as int);
        }
    }
    q as i64
}

} // verus!
