//! Image tracing: edge detection, extraction, ordering, normalization.

use osci_rs::trace::{
    extract_edge_points, normalize_points, sobel_edge_detection, sort_points_nearest_neighbor,
};

#[test]
fn test_sobel_basic() {
    // A simple 10x10 test image with a vertical edge:
    // left half black, right half white.
    let mut pixels: Vec<u8> = vec![0; 100];
    for y in 0..10usize {
        for x in 0..10usize {
            pixels[y * 10 + x] = if x < 5 { 0 } else { 255 };
        }
    }

    let edges = sobel_edge_detection(&pixels, 10, 10, false);

    assert!(!edges.is_empty());

    // The middle column has higher values than the corner.
    let mid_val = edges[5 * 10 + 5];
    let corner_val = edges[0];
    assert!(mid_val > corner_val);
}

#[test]
fn test_nearest_neighbor_sorting() {
    let points = vec![
        (0, 0),
        (1_000_000, 0),
        (100_000, 0),
        (900_000, 0),
    ];

    let sorted = sort_points_nearest_neighbor(&points, 100);

    // Should start at the origin and visit nearby points first.
    assert_eq!(sorted[0], (0, 0));
    assert_eq!(sorted[1], (100_000, 0));
}

#[test]
fn test_extract_points() {
    // Edge data with some values above threshold: the centre 2x2 of a 4x4.
    let edges = vec![
        0, 0, 0, 0,
        0, 500_000, 500_000, 0,
        0, 500_000, 500_000, 0,
        0, 0, 0, 0,
    ];

    let points = extract_edge_points(&edges, 4, 4, 300_000, 100_000);

    assert_eq!(points.len(), 4);
}

#[test]
fn test_normalize_points() {
    let points = vec![
        (0, 0),
        (100_000_000, 0),
        (100_000_000, 100_000_000),
        (0, 100_000_000),
    ];
    let normalized = normalize_points(&points);

    // All points should be within [-1, 1].
    for &(x, y) in &normalized {
        assert!(x >= -1_000_000 && x <= 1_000_000);
        assert!(y >= -1_000_000 && y <= 1_000_000);
    }
}

#[test]
fn test_normalize_centers_square() {
    // A unit-square box maps its corners onto the unit square's corners,
    // with the Y axis flipped.
    let points = vec![(0, 0), (10_000_000, 10_000_000)];
    let normalized = normalize_points(&points);
    assert_eq!(normalized[0], (-1_000_000, 1_000_000));
    assert_eq!(normalized[1], (1_000_000, -1_000_000));
}

#[test]
fn test_sort_subsamples_large_sets() {
    // More points than the cap: the set is thinned by a whole stride.
    let mut points: Vec<(i64, i64)> = Vec::new();
    for i in 0..100i64 {
        points.push((i * 10_000, 0));
    }
    let sorted = sort_points_nearest_neighbor(&points, 10);
    assert_eq!(sorted.len(), 10);
    assert_eq!(sorted[0], (0, 0));
}
