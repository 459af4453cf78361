//! Primitive shapes and paths.

use osci_rs::path::Path;
use osci_rs::primitives::{Circle, Line, Polygon, Rectangle};
use osci_rs::shapes::{shape_to_samples, Shape};

fn to_f64(v: i64) -> f64 {
    v as f64 / 1.0e6
}

#[test]
fn test_circle() {
    let circle = Circle::new(500_000);

    // At t=0, should be at (0.5, 0) - rightmost point
    let (x, y) = circle.sample(0);
    assert!((to_f64(x) - 0.5).abs() < 0.001);
    assert!(to_f64(y).abs() < 0.001);

    // At t=0.25, should be at (0, 0.5) - top
    let (x, y) = circle.sample(250_000);
    assert!(to_f64(x).abs() < 0.001);
    assert!((to_f64(y) - 0.5).abs() < 0.001);
}

#[test]
fn test_line() {
    let line = Line::new(-1_000_000, 0, 1_000_000, 0);

    // At t=0, should be at start
    let (x, y) = line.sample(0);
    assert!((to_f64(x) - (-1.0)).abs() < 0.001);
    assert!(to_f64(y).abs() < 0.001);

    // At t=0.5, should be at midpoint
    let (x, y) = line.sample(500_000);
    assert!(to_f64(x).abs() < 0.001);
    assert!(to_f64(y).abs() < 0.001);
}

#[test]
fn test_rectangle() {
    let rect = Rectangle::square(1_000_000);

    // Verify corners are hit
    let (x, y) = rect.sample(0);
    assert!((to_f64(x) - (-0.5)).abs() < 0.001);
    assert!((to_f64(y) - 0.5).abs() < 0.001);
}

#[test]
fn test_polygon() {
    let triangle = Polygon::triangle(500_000);
    assert_eq!(triangle.vertex_count(), 3);

    let star = Polygon::star(5, 800_000, 300_000);
    assert_eq!(star.vertex_count(), 10);
}

#[test]
fn test_path_basic() {
    let path = Path::new(vec![(0, 0), (1_000_000, 0), (1_000_000, 1_000_000)]);
    assert_eq!(path.len(), 3);
    assert!(!path.is_closed());
}

#[test]
fn test_lissajous() {
    let lissajous = Path::lissajous(3_000_000, 2_000_000, 0, 100);
    assert_eq!(lissajous.len(), 100);
    assert!(lissajous.is_closed());
}

#[test]
fn test_heart() {
    let heart = Path::heart(800_000, 100);
    assert_eq!(heart.len(), 100);
}

#[test]
fn test_rectangle_walks_all_edges() {
    let rect = Rectangle::square(1_000_000);
    // Quarter points land on the four corners, clockwise from top-left.
    let corners = [
        (-500_000i64, 500_000i64),
        (500_000, 500_000),
        (500_000, -500_000),
        (-500_000, -500_000),
    ];
    for (i, &(cx, cy)) in corners.iter().enumerate() {
        let (x, y) = rect.sample(i as i64 * 250_000);
        assert_eq!((x, y), (cx, cy));
    }
}

#[test]
fn test_samples_stay_in_unit_square() {
    // Shapes confined by their parameters never sample outside the unit
    // square, even at odd parameters.
    let circle = Circle::at(300_000, -200_000, 500_000);
    let heart = Path::heart(1_000_000, 64);
    let poly = Polygon::pentagon(900_000);
    for i in -20..40i64 {
        let t = i * 77_777;
        for &(x, y) in
            &[circle.sample(t), heart.sample(t), poly.sample(t)]
        {
            assert!(x >= -1_000_000 && x <= 1_000_000);
            assert!(y >= -1_000_000 && y <= 1_000_000);
        }
    }
}

#[test]
fn test_sine_wave_endpoints() {
    let wave = Path::sine_wave(500_000, 2_000_000, 101);
    let points = wave.points();
    assert_eq!(points.len(), 101);
    // The wave spans the full width.
    assert_eq!(points[0].0, -1_000_000);
    assert_eq!(points[100].0, 1_000_000);
}

#[test]
fn test_shape_lengths() {
    // Circle length = tau * radius; line length = its euclidean length.
    let circle = Circle::new(500_000);
    assert!((to_f64(circle.length()) - std::f64::consts::TAU * 0.5).abs() < 0.001);
    let line = Line::new(0, 0, 300_000, 400_000);
    assert!((to_f64(line.length()) - 0.5).abs() < 0.001);
    let rect = Rectangle::new(600_000, 400_000);
    assert!((to_f64(rect.length()) - 2.0).abs() < 0.001);
}

#[test]
fn test_shape_to_samples_count() {
    let circle = Circle::new(500_000);
    let samples = shape_to_samples(&circle, 64);
    assert_eq!(samples.len(), 64);
    assert_eq!(samples[0].x, 500_000);
    assert_eq!(samples[0].y, 0);
}

#[test]
fn test_open_path_clamps_parameter() {
    let line_path = Path::new(vec![(0, 0), (1_000_000, 0)]);
    // Below zero clamps to the start, above one to the end.
    assert_eq!(line_path.sample(-500_000), (0, 0));
    assert_eq!(line_path.sample(2_000_000), (1_000_000, 0));
}

#[test]
fn test_empty_and_single_point_paths() {
    let empty = Path::new(vec![]);
    assert!(empty.is_empty());
    assert_eq!(empty.sample(300_000), (0, 0));
    let single = Path::new(vec![(250_000, -250_000)]);
    assert_eq!(single.sample(700_000), (250_000, -250_000));
}
