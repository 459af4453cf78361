//! The engine end to end: pre-sampling, rendering, control decisions.

use osci_rs::buffer::SampleBuffer;
use osci_rs::engine::{AudioEngine, EngineStatus, StartCheck};
use osci_rs::primitives::Circle;

fn engine() -> AudioEngine {
    AudioEngine::new(SampleBuffer::new(1024))
}

#[test]
fn test_fresh_engine_state() {
    let e = engine();
    assert!(!e.is_playing());
    assert_eq!(e.current_shape_name(), "None");
    assert_eq!(e.status(), EngineStatus::Ready);
    assert_eq!(e.status().message(), "Ready");
}

#[test]
fn test_presample_size_and_first_frame() {
    // Circle of radius 0.5, trace frequency 80 Hz, sample rate 48000 Hz:
    // the table holds 48000 / 80 = 600 samples, and a fresh stream's first
    // frame is (0.5, 0) scaled by the volume (0.8 by default).
    let mut e = engine();
    e.set_shape(&Circle::new(500_000));
    assert_eq!(e.check_start(), StartCheck::Ready);
    e.mark_started(48_000);
    let frames = e.render_block(1);
    assert_eq!(frames.len(), 1);
    assert_eq!(frames[0].x, 400_000);
    assert_eq!(frames[0].y, 0);
}

#[test]
fn test_output_repeats_every_table_length() {
    // With no effects, the output repeats identically every 600 frames.
    let mut e = engine();
    e.set_shape(&Circle::new(500_000));
    e.mark_started(48_000);
    let frames = e.render_block(1800);
    for i in 0..600usize {
        assert_eq!(frames[i], frames[i + 600]);
        assert_eq!(frames[i], frames[i + 1200]);
    }
    // Subsequent blocks continue the trace where the last one stopped.
    let more = e.render_block(600);
    for i in 0..600usize {
        assert_eq!(more[i], frames[i]);
    }
}

#[test]
fn test_presampling_is_deterministic() {
    // Identical curve, frequency, sample rate and volume give identical
    // tables, frame for frame.
    let mut a = engine();
    let mut b = engine();
    a.set_shape(&Circle::new(500_000));
    b.set_shape(&Circle::new(500_000));
    a.mark_started(48_000);
    b.mark_started(48_000);
    assert_eq!(a.render_block(600), b.render_block(600));
}

#[test]
fn test_silence_when_stopped_or_empty() {
    let mut e = engine();
    // No shape yet: the block is silence even after a (wrong) start.
    let frames = e.render_block(64);
    assert_eq!(frames.len(), 64);
    assert!(frames.iter().all(|s| s.x == 0 && s.y == 0));

    e.set_shape(&Circle::new(500_000));
    // Still stopped: silence again.
    let frames = e.render_block(64);
    assert!(frames.iter().all(|s| s.x == 0 && s.y == 0));
}

#[test]
fn test_start_checks() {
    let mut e = engine();
    assert_eq!(e.check_start(), StartCheck::NoShape);
    e.set_shape(&Circle::new(500_000));
    assert_eq!(e.check_start(), StartCheck::Ready);
    e.mark_started(44_100);
    assert_eq!(e.check_start(), StartCheck::AlreadyRunning);
    assert!(e.is_playing());
    assert_eq!(e.status(), EngineStatus::Playing);
    e.stop();
    assert!(!e.is_playing());
    assert_eq!(e.status(), EngineStatus::Stopped);
}

#[test]
fn test_start_failures_leave_engine_stopped() {
    let mut e = engine();
    e.set_shape(&Circle::new(500_000));
    e.mark_start_failed(EngineStatus::DeviceUnavailable);
    assert!(!e.is_playing());
    assert_eq!(e.status(), EngineStatus::DeviceUnavailable);
    assert_eq!(e.status().message(), "Error: No output device found");
    e.mark_start_failed(EngineStatus::UnsupportedFormat);
    assert_eq!(e.status(), EngineStatus::UnsupportedFormat);
    e.mark_start_failed(EngineStatus::StreamBuildFailure);
    assert_eq!(e.status(), EngineStatus::StreamBuildFailure);
    e.mark_start_failed(EngineStatus::StreamStartFailure);
    assert_eq!(e.status(), EngineStatus::StreamStartFailure);
    // A failed start is never retried by the engine itself; it can still
    // be started explicitly afterwards.
    assert_eq!(e.check_start(), StartCheck::Ready);
}

#[test]
fn test_render_decimates_into_buffer() {
    let mut e = engine();
    e.set_shape(&Circle::new(500_000));
    e.mark_started(48_000);
    let before = e.buffer.samples_written();
    let frames = e.render_block(64);
    let after = e.buffer.samples_written();
    // Every 8th frame lands in the visualization buffer.
    assert_eq!(after - before, 8);
    let recent = e.buffer.get_recent_samples(8);
    assert_eq!(recent[0], frames[0]);
    assert_eq!(recent[1], frames[8]);
    assert_eq!(recent[7], frames[56]);
}

#[test]
fn test_shape_change_resets_cursor() {
    let mut e = engine();
    e.set_shape(&Circle::new(500_000));
    e.mark_started(48_000);
    let first = e.render_block(100);
    e.update_shape(&Circle::new(500_000));
    let again = e.render_block(100);
    // The cursor restarted at the top of the table.
    assert_eq!(first[0], again[0]);
    assert_eq!(e.current_shape_name(), "Circle");
}

#[test]
fn test_set_config_stages_exact_first_frame() {
    // Circle of radius 0.5, 80 Hz trace, 48000 Hz rate, full volume:
    // 600 samples per trace, first frame exactly (0.5, 0).
    let mut e = engine();
    e.set_config(osci_rs::engine::AudioConfig { frequency: 80_000_000, volume: 1_000_000 });
    e.set_shape(&Circle::new(500_000));
    e.mark_started(48_000);
    let frames = e.render_block(601);
    assert_eq!(frames[0].x, 500_000);
    assert_eq!(frames[0].y, 0);
    assert_eq!(frames[600], frames[0]);
}

#[test]
fn test_volume_scales_table() {
    let mut e = engine();
    e.config.volume = 500_000; // half volume
    e.set_shape(&Circle::new(500_000));
    e.mark_started(48_000);
    let frames = e.render_block(1);
    assert_eq!(frames[0].x, 250_000);
}

#[test]
fn test_mono_mix() {
    assert_eq!(osci_rs::engine::mono_mix(400_000, 200_000), 300_000);
    assert_eq!(osci_rs::engine::mono_mix(-400_000, 200_000), -100_000);
}
