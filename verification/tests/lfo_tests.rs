//! LFO waveforms and range mapping.

use osci_rs::fx::FX_ONE;
use osci_rs::lfo::{Lfo, LfoWaveform};

fn to_f64(v: i64) -> f64 {
    v as f64 / 1.0e6
}

#[test]
fn test_lfo_sine() {
    let lfo = Lfo::new(FX_ONE); // 1 Hz

    // At t=0, sine starts at 0 -> maps to center of range
    let v = lfo.sample(0);
    assert!((to_f64(v) - 0.0).abs() < 0.01);

    // At t=0.25 (quarter period), sine is at max
    let v = lfo.sample(250_000);
    assert!((to_f64(v) - 1.0).abs() < 0.01);

    // At t=0.75 (three-quarter period), sine is at min
    let v = lfo.sample(750_000);
    assert!((to_f64(v) - (-1.0)).abs() < 0.01);
}

#[test]
fn test_lfo_range() {
    let lfo = Lfo::with_range(FX_ONE, 0, 10_000_000);

    // Should oscillate between 0 and 10
    let v = lfo.sample(250_000); // Max
    assert!((to_f64(v) - 10.0).abs() < 0.1);

    let v = lfo.sample(750_000); // Min
    assert!((to_f64(v) - 0.0).abs() < 0.1);
}

#[test]
fn test_lfo_square() {
    let lfo = Lfo::new(FX_ONE).waveform(LfoWaveform::Square);

    let v = lfo.sample(250_000); // First half
    assert!((to_f64(v) - 1.0).abs() < 0.01);

    let v = lfo.sample(750_000); // Second half
    assert!((to_f64(v) - (-1.0)).abs() < 0.01);
}

#[test]
fn test_waveform_cardinal_values() {
    // The raw waveforms hit their extremes exactly.
    assert_eq!(LfoWaveform::Sine.sample(0), 0);
    assert_eq!(LfoWaveform::Sine.sample(250_000), FX_ONE);
    assert_eq!(LfoWaveform::Sine.sample(500_000), 0);
    assert_eq!(LfoWaveform::Sine.sample(750_000), -FX_ONE);
    assert_eq!(LfoWaveform::Triangle.sample(0), 0);
    assert_eq!(LfoWaveform::Triangle.sample(250_000), FX_ONE);
    assert_eq!(LfoWaveform::Triangle.sample(750_000), -FX_ONE);
    assert_eq!(LfoWaveform::Square.sample(0), FX_ONE);
    assert_eq!(LfoWaveform::Square.sample(500_000), -FX_ONE);
    assert_eq!(LfoWaveform::Sawtooth.sample(0), -FX_ONE);
    assert_eq!(LfoWaveform::Sawtooth.sample(500_000), 0);
    assert_eq!(LfoWaveform::ReverseSawtooth.sample(0), FX_ONE);
    assert_eq!(LfoWaveform::ReverseSawtooth.sample(500_000), 0);
}

#[test]
fn test_disabled_lfo_returns_midpoint() {
    let mut lfo = Lfo::with_range(FX_ONE, 200_000, 800_000);
    lfo.enabled = false;
    assert_eq!(lfo.sample(123_456), 500_000);
}

#[test]
fn test_phase_offset_shifts_waveform() {
    let lfo = Lfo::new(FX_ONE).phase(250_000);
    // A quarter-turn offset turns the sine into a cosine: max at t=0.
    let v = lfo.sample(0);
    assert!((to_f64(v) - 1.0).abs() < 0.01);
}

#[test]
fn test_waveform_names() {
    assert_eq!(LfoWaveform::Sine.name(), "Sine");
    assert_eq!(LfoWaveform::ReverseSawtooth.name(), "Rev Saw");
    assert_eq!(LfoWaveform::all().len(), 5);
}
