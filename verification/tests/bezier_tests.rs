//! Bezier curve evaluation.

use osci_rs::bezier::{cubic_bezier, flatten_cubic, flatten_quad, quadratic_bezier};

fn to_f64(v: i64) -> f64 {
    v as f64 / 1.0e6
}

#[test]
fn svg_test_quadratic_bezier() {
    let p0 = (0, 0);
    let p1 = (500_000, 1_000_000);
    let p2 = (1_000_000, 0);

    // At t=0, should be at p0
    let (x, y) = quadratic_bezier(p0, p1, p2, 0);
    assert!(to_f64(x).abs() < 0.001);
    assert!(to_f64(y).abs() < 0.001);

    // At t=1, should be at p2
    let (x, y) = quadratic_bezier(p0, p1, p2, 1_000_000);
    assert!((to_f64(x) - 1.0).abs() < 0.001);
    assert!(to_f64(y).abs() < 0.001);

    // At t=0.5, should be at midpoint lifted by control point
    let (x, y) = quadratic_bezier(p0, p1, p2, 500_000);
    assert!((to_f64(x) - 0.5).abs() < 0.001);
    assert!((to_f64(y) - 0.5).abs() < 0.001);
}

#[test]
fn svg_test_cubic_bezier() {
    let p0 = (0, 0);
    let p1 = (330_000, 1_000_000);
    let p2 = (660_000, 1_000_000);
    let p3 = (1_000_000, 0);

    // At t=0, should be at p0
    let (x, y) = cubic_bezier(p0, p1, p2, p3, 0);
    assert!(to_f64(x).abs() < 0.001);
    assert!(to_f64(y).abs() < 0.001);

    // At t=1, should be at p3
    let (x, y) = cubic_bezier(p0, p1, p2, p3, 1_000_000);
    assert!((to_f64(x) - 1.0).abs() < 0.001);
    assert!(to_f64(y).abs() < 0.001);
}

#[test]
fn text_test_quadratic_bezier() {
    let p0 = (0, 0);
    let p1 = (500_000, 1_000_000);
    let p2 = (1_000_000, 0);

    let (x, y) = quadratic_bezier(p0, p1, p2, 0);
    assert!(to_f64(x).abs() < 0.001);
    assert!(to_f64(y).abs() < 0.001);

    let (x, y) = quadratic_bezier(p0, p1, p2, 1_000_000);
    assert!((to_f64(x) - 1.0).abs() < 0.001);
    assert!(to_f64(y).abs() < 0.001);

    let (x, y) = quadratic_bezier(p0, p1, p2, 500_000);
    assert!((to_f64(x) - 0.5).abs() < 0.001);
    assert!((to_f64(y) - 0.5).abs() < 0.001);
}

#[test]
fn text_test_cubic_bezier() {
    let p0 = (0, 0);
    let p1 = (330_000, 1_000_000);
    let p2 = (660_000, 1_000_000);
    let p3 = (1_000_000, 0);

    let (x, y) = cubic_bezier(p0, p1, p2, p3, 0);
    assert!(to_f64(x).abs() < 0.001);
    assert!(to_f64(y).abs() < 0.001);

    let (x, y) = cubic_bezier(p0, p1, p2, p3, 1_000_000);
    assert!((to_f64(x) - 1.0).abs() < 0.001);
    assert!(to_f64(y).abs() < 0.001);
}

#[test]
fn test_flatten_reaches_endpoint() {
    let p0 = (0, 0);
    let p1 = (500_000, 1_000_000);
    let p2 = (1_000_000, 0);
    let flat = flatten_quad(p0, p1, p2, 8);
    assert_eq!(flat.len(), 8);
    assert_eq!(flat[7], (1_000_000, 0));

    let p3 = (1_000_000, 0);
    let flat = flatten_cubic(p0, p1, p2, p3, 8);
    assert_eq!(flat.len(), 8);
    assert_eq!(flat[7], (1_000_000, 0));
}
