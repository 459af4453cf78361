//! Ring buffer behaviour: storage, ordering, wrapping and clearing.

use osci_rs::buffer::{SampleBuffer, XYSample};

#[test]
fn test_push_and_get() {
    let mut buffer = SampleBuffer::new(4);

    buffer.push(XYSample::new(1_000_000, 1_000_000));
    buffer.push(XYSample::new(2_000_000, 2_000_000));
    buffer.push(XYSample::new(3_000_000, 3_000_000));

    let samples = buffer.get_samples();
    assert_eq!(samples.len(), 4);
}

#[test]
fn test_circular_wrap() {
    let mut buffer = SampleBuffer::new(3);

    // Push more samples than capacity
    buffer.push(XYSample::new(1_000_000, 1_000_000));
    buffer.push(XYSample::new(2_000_000, 2_000_000));
    buffer.push(XYSample::new(3_000_000, 3_000_000));
    buffer.push(XYSample::new(4_000_000, 4_000_000)); // Overwrites first

    let samples = buffer.get_recent_samples(3);
    assert_eq!(samples[0].x, 2_000_000);
    assert_eq!(samples[1].x, 3_000_000);
    assert_eq!(samples[2].x, 4_000_000);
}

#[test]
fn test_round_trip_order() {
    // Pushing M <= C samples returns them in push order.
    let mut buffer = SampleBuffer::new(8);
    for i in 0..5i64 {
        buffer.push(XYSample::new(i * 10, -i * 10));
    }
    let recent = buffer.get_recent_samples(5);
    assert_eq!(recent.len(), 5);
    for i in 0..5usize {
        assert_eq!(recent[i].x, i as i64 * 10);
        assert_eq!(recent[i].y, -(i as i64) * 10);
    }
}

#[test]
fn test_wrap_keeps_last_capacity() {
    // Pushing C + k samples leaves exactly the last C, oldest first.
    let mut buffer = SampleBuffer::new(4);
    for i in 0..7i64 {
        buffer.push(XYSample::new(i, i));
    }
    let all = buffer.get_samples();
    assert_eq!(all.len(), 4);
    for i in 0..4usize {
        assert_eq!(all[i].x, 3 + i as i64);
    }
}

#[test]
fn test_push_slice_matches_pushes() {
    let mut a = SampleBuffer::new(4);
    let mut b = SampleBuffer::new(4);
    let batch = vec![
        XYSample::new(1, 2),
        XYSample::new(3, 4),
        XYSample::new(5, 6),
    ];
    a.push_slice(&batch);
    for s in &batch {
        b.push(*s);
    }
    assert_eq!(a.get_samples(), b.get_samples());
    assert_eq!(a.samples_written(), 3);
}

#[test]
fn test_clear_resets_window() {
    let mut buffer = SampleBuffer::new(3);
    buffer.push(XYSample::new(7, 7));
    buffer.clear();
    let all = buffer.get_samples();
    for s in &all {
        assert_eq!(s.x, 0);
        assert_eq!(s.y, 0);
    }
    // The total written count survives a clear.
    assert_eq!(buffer.samples_written(), 1);
}
