//! Scene composition and weighted routing.

use osci_rs::primitives::Circle;
use osci_rs::scene::{Scene, SceneShape};
use osci_rs::shapes::{AnyShape, Shape};

fn to_f64(v: i64) -> f64 {
    v as f64 / 1.0e6
}

#[test]
fn test_empty_scene() {
    let scene = Scene::new("Empty".to_string());
    assert!(scene.is_empty());
    assert_eq!(scene.sample(500_000), (0, 0));
}

#[test]
fn test_single_shape() {
    let mut scene = Scene::new("Single".to_string());
    scene.add(AnyShape::Circle(Circle::new(500_000)));

    assert_eq!(scene.len(), 1);

    // At t=0, should be at rightmost point of circle
    let (x, y) = scene.sample(0);
    assert!((to_f64(x) - 0.5).abs() < 0.01);
    assert!(to_f64(y).abs() < 0.01);
}

#[test]
fn test_multiple_shapes() {
    let mut scene = Scene::new("Multi".to_string());
    scene.add(AnyShape::Circle(Circle::new(500_000)));
    scene.add(AnyShape::Circle(Circle::new(300_000)));

    assert_eq!(scene.len(), 2);

    // First half should sample first circle
    let (x1, _) = scene.sample(0);
    assert!((to_f64(x1) - 0.5).abs() < 0.01);

    // Second half should sample second circle
    let (x2, _) = scene.sample(500_000);
    assert!((to_f64(x2) - 0.3).abs() < 0.01);
}

#[test]
fn test_weighted_shapes() {
    let mut scene = Scene::new("Weighted".to_string());
    scene.add_weighted(AnyShape::Circle(Circle::new(500_000)), 2_000_000); // 2/3 of the trace
    scene.add_weighted(AnyShape::Circle(Circle::new(300_000)), 1_000_000); // 1/3 of the trace

    // At t=0, should be at start of first circle (radius 0.5)
    let (x0, y0) = scene.sample(0);
    assert!((to_f64(x0) - 0.5).abs() < 0.01);
    assert!(to_f64(y0).abs() < 0.01);

    // At t=0.8, we're in the second circle's slice (2/3 to 1)
    let (x, y) = scene.sample(800_000);
    let dist = (to_f64(x) * to_f64(x) + to_f64(y) * to_f64(y)).sqrt();
    assert!((dist - 0.3).abs() < 0.1);
}

#[test]
fn test_weighted_routing_boundary() {
    // Weights 2 and 1: the first shape owns [0, 2/3), the second the rest.
    let mut scene = Scene::new("Routing".to_string());
    scene.add_weighted(AnyShape::Circle(Circle::new(500_000)), 2_000_000);
    scene.add_weighted(AnyShape::Circle(Circle::new(300_000)), 1_000_000);

    // Just below 2/3: still the large circle (radius 0.5 from origin).
    let (x, y) = scene.sample(666_000);
    let d = (to_f64(x) * to_f64(x) + to_f64(y) * to_f64(y)).sqrt();
    assert!((d - 0.5).abs() < 0.01);

    // Just above 2/3: the small circle, near the start of its own trace.
    let (x, y) = scene.sample(667_000);
    let d = (to_f64(x) * to_f64(x) + to_f64(y) * to_f64(y)).sqrt();
    assert!((d - 0.3).abs() < 0.01);
}

#[test]
fn test_scene_entry_configuration() {
    let entry = SceneShape::new(AnyShape::Circle(Circle::new(400_000)));
    assert_eq!(entry.weight(), 1_000_000);
    assert!(entry.is_enabled());
    assert_eq!(entry.name(), "Circle");

    let mut weighted = SceneShape::with_weight(AnyShape::Circle(Circle::new(400_000)), 50_000);
    // Weights are clamped to the minimum of 0.1.
    assert_eq!(weighted.weight(), 100_000);
    weighted.set_enabled(false);
    assert!(!weighted.is_enabled());
}

#[test]
fn test_disabled_shape_gets_no_slice() {
    let mut scene = Scene::new("Disable".to_string());
    scene.add(AnyShape::Circle(Circle::new(500_000)));
    scene.add(AnyShape::Circle(Circle::new(300_000)));
    scene.set_enabled(0, false);

    // The whole trace now belongs to the second circle.
    let (x, _) = scene.sample(0);
    assert!((to_f64(x) - 0.3).abs() < 0.01);
    let (x, _) = scene.sample(500_000);
    let d = to_f64(x).abs();
    assert!(d <= 0.3 + 0.01);
}

#[test]
fn test_scene_remove_and_reorder() {
    let mut scene = Scene::new("Order".to_string());
    scene.add(AnyShape::Circle(Circle::new(500_000)));
    scene.add(AnyShape::Circle(Circle::new(300_000)));
    scene.move_up(1);
    // Now the small circle comes first.
    let (x, _) = scene.sample(0);
    assert!((to_f64(x) - 0.3).abs() < 0.01);
    scene.move_down(0);
    let (x, _) = scene.sample(0);
    assert!((to_f64(x) - 0.5).abs() < 0.01);

    let removed = scene.remove(0);
    assert!(removed.is_some());
    assert_eq!(scene.len(), 1);
    assert!(scene.remove(5).is_none());
}

#[test]
fn test_scene_is_closed_and_length() {
    let mut scene = Scene::new("Closed".to_string());
    scene.add(AnyShape::Circle(Circle::new(500_000)));
    assert!(scene.is_closed());
    assert!(scene.length() > 0);
    assert_eq!(scene.name(), "Closed");
}
