//! Low frequency oscillators.
//!
//! An LFO samples a periodic waveform at a phase derived from the current
//! time and maps the raw `[-1, 1]` waveform value into a configured
//! `[min, max]` range.  A disabled LFO reports the midpoint of its range.

use vstd::prelude::*;

use crate::fx::{div_tz, fx_wrap_wide, lemma_scale_in_range, sat64, sat_i128, wide_div_one, wide_mul, Fx, FX_HALF, FX_ONE};
use crate::trig::{sin_turns, sin_turns_spec};

verus! {

/// LFO waveform shapes.
#[derive(Clone, Copy, Debug, PartialEq, Eq, Structural)]
pub enum LfoWaveform {
    /// Smooth sine wave.
    Sine,
    /// Linear triangle wave.
    Triangle,
    /// Abrupt square wave.
    Square,
    /// Rising sawtooth.
    Sawtooth,
    /// Falling sawtooth.
    ReverseSawtooth,
}

/// Value of a waveform at a phase in `[0, FX_ONE)`, in `[-FX_ONE, FX_ONE]`.
pub open spec fn waveform_sample_spec(w: LfoWaveform, phase: int) -> int {
    match w {
        LfoWaveform::Sine => sin_turns_spec(phase),
        LfoWaveform::Triangle => {
            let p = 4 * phase;
            if p < FX_ONE {
                p
            } else if p < 3 * FX_ONE {
                2 * FX_ONE - p
            } else {
                p - 4 * FX_ONE
            }
        },
        LfoWaveform::Square => if phase < FX_HALF {
            FX_ONE as int
        } else {
            -FX_ONE as int
        },
        LfoWaveform::Sawtooth => 2 * phase - FX_ONE,
        LfoWaveform::ReverseSawtooth => FX_ONE - 2 * phase,
    }
}

impl LfoWaveform {
    /// All waveform types, in display order.
    pub fn all() -> (r: Vec<LfoWaveform>)
        ensures
            r@ == seq![
                LfoWaveform::Sine,
                LfoWaveform::Triangle,
                LfoWaveform::Square,
                LfoWaveform::Sawtooth,
                LfoWaveform::ReverseSawtooth,
            ],
    {
        let mut v: Vec<LfoWaveform> = Vec::new();
        v.push(LfoWaveform::Sine);
        v.push(LfoWaveform::Triangle);
        v.push(LfoWaveform::Square);
        v.push(LfoWaveform::Sawtooth);
        v.push(LfoWaveform::ReverseSawtooth);
        proof {
            assert(v@ =~= seq![
                LfoWaveform::Sine,
                LfoWaveform::Triangle,
                LfoWaveform::Square,
                LfoWaveform::Sawtooth,
                LfoWaveform::ReverseSawtooth,
            ]);
        }
        v
    }

    /// Display name of this waveform.
    pub fn name(&self) -> (r: &'static str)
        ensures
            r@ == match self {
                LfoWaveform::Sine => "Sine"@,
                LfoWaveform::Triangle => "Triangle"@,
                LfoWaveform::Square => "Square"@,
                LfoWaveform::Sawtooth => "Sawtooth"@,
                LfoWaveform::ReverseSawtooth => "Rev Saw"@,
            },
    {
        match self {
            LfoWaveform::Sine => "Sine",
            LfoWaveform::Triangle => "Triangle",
            LfoWaveform::Square => "Square",
            LfoWaveform::Sawtooth => "Sawtooth",
            LfoWaveform::ReverseSawtooth => "Rev Saw",
        }
    }

    /// Sample the waveform at a phase in `[0, FX_ONE)`.
    pub fn sample(&self, phase: Fx) -> (r: Fx)
        requires
            0 <= phase < FX_ONE,
        ensures
            r as int == waveform_sample_spec(*self, phase as int),
            -FX_ONE <= r <= FX_ONE,
    {
        match self {
            LfoWaveform::Sine => sin_turns(phase),
            LfoWaveform::Triangle => {
                let p: i64 = 4 * phase;
                if p < FX_ONE {
                    p
                } else if p < 3 * FX_ONE {
                    2 * FX_ONE - p
                } else {
                    p - 4 * FX_ONE
                }
            },
            LfoWaveform::Square => if phase < FX_HALF {
                FX_ONE
            } else {
                -FX_ONE
            },
            LfoWaveform::Sawtooth => 2 * phase - FX_ONE,
            LfoWaveform::ReverseSawtooth => FX_ONE - 2 * phase,
        }
    }
}

/// Phase of an oscillation at a time: the fractional part of
/// `time * frequency + offset`, in `[0, FX_ONE)`.
pub open spec fn lfo_phase_spec(frequency: int, phase_offset: int, time: int) -> int {
    (div_tz(time * frequency, FX_ONE as int) + phase_offset) % (FX_ONE as int)
}

impl Default for Lfo {
    /// A one-hertz sine over `[-1, 1]`.
    fn default() -> (r: Self)
        ensures
            r == (Lfo {
                frequency: FX_ONE,
                waveform: LfoWaveform::Sine,
                min: -1_000_000i64,
                max: FX_ONE,
                phase_offset: 0i64,
                enabled: true,
            }),
    {
        Lfo::new(FX_ONE)
    }
}

/// Value of an LFO at a time.
pub open spec fn lfo_sample_spec(lfo: Lfo, time: int) -> int {
    if !lfo.enabled {
        div_tz(lfo.min + lfo.max, 2)
    } else {
        let phase = lfo_phase_spec(lfo.frequency as int, lfo.phase_offset as int, time);
        let raw = waveform_sample_spec(lfo.waveform, phase);
        let normalized = div_tz(raw + FX_ONE, 2);
        sat64(lfo.min + div_tz(normalized * (lfo.max - lfo.min), FX_ONE as int))
    }
}

/// Low frequency oscillator: a periodic signal for modulating parameters.
#[derive(Clone, Copy, Debug)]
pub struct Lfo {
    /// Oscillation frequency in Hz.
    pub frequency: Fx,
    /// Waveform shape.
    pub waveform: LfoWaveform,
    /// Minimum output value.
    pub min: Fx,
    /// Maximum output value.
    pub max: Fx,
    /// Phase offset, as a fraction of a period.
    pub phase_offset: Fx,
    /// Whether the LFO is enabled.
    pub enabled: bool,
}

impl Lfo {
    /// Create a new LFO oscillating over `[-1, 1]` with a sine wave.
    pub fn new(frequency: Fx) -> (r: Self)
        ensures
            r.frequency == frequency,
            r.waveform == LfoWaveform::Sine,
            r.min == -FX_ONE && r.max == FX_ONE,
            r.phase_offset == 0,
            r.enabled,
    {
        Lfo {
            frequency,
            waveform: LfoWaveform::Sine,
            min: -FX_ONE,
            max: FX_ONE,
            phase_offset: 0,
            enabled: true,
        }
    }

    /// Create an LFO with a specified range.
    pub fn with_range(frequency: Fx, min: Fx, max: Fx) -> (r: Self)
        ensures
            r == (Lfo {
                frequency,
                waveform: LfoWaveform::Sine,
                min,
                max,
                phase_offset: 0,
                enabled: true,
            }),
    {
        Lfo { frequency, waveform: LfoWaveform::Sine, min, max, phase_offset: 0, enabled: true }
    }

    /// Set the waveform.
    pub fn waveform(self, waveform: LfoWaveform) -> (r: Self)
        ensures
            r == (Lfo { waveform, ..self }),
    {
        Lfo { waveform, ..self }
    }

    /// Set the phase offset.
    pub fn phase(self, offset: Fx) -> (r: Self)
        ensures
            r == (Lfo { phase_offset: offset, ..self }),
    {
        Lfo { phase_offset: offset, ..self }
    }

    /// Sample the LFO at a given time (in seconds).
    ///
    /// The result lies between `min` and `max` whenever `min <= max`; a
    /// disabled LFO returns the midpoint of its range.
    pub fn sample(&self, time: Fx) -> (r: Fx)
        ensures
            r as int == lfo_sample_spec(*self, time as int),
            self.enabled && self.min <= self.max ==> self.min <= r <= self.max,
    {
        if !self.enabled {
            // Centre of the range when disabled.
            let s: i128 = self.min as i128 + self.max as i128;
            let m: i128 = if s >= 0 {
                s / 2
            } else {
                -((-s) / 2)
            };
            return m as i64;
        }
        let prod: i128 = wide_mul(time, self.frequency);
        let scaled: i128 = wide_div_one(prod);
        let shifted: i128 = scaled + self.phase_offset as i128;
        let phase: Fx = fx_wrap_wide(shifted);
        let raw: Fx = self.waveform.sample(phase);
        let normalized: Fx = (raw + FX_ONE) / 2;
        let span: i128 = self.max as i128 - self.min as i128;
        assert(-36893488147419103232000000int <= normalized as int * span as int
            <= 36893488147419103232000000int) by (nonlinear_arith)
            requires
                0 <= normalized as int <= 1_000_000int,
                -36893488147419103232int <= span as int <= 36893488147419103232int,
        ;
        let wide: i128 = (normalized as i128) * span;
        let span_part: i128 = if wide >= 0 {
            wide / (FX_ONE as i128)
        } else {
            -((-wide) / (FX_ONE as i128))
        };
        let r: Fx = sat_i128(self.min as i128 + span_part);
        proof {
            if self.min <= self.max {
                lemma_scale_in_range(normalized as int, span as int);
            }
        }
        r
    }
}

} // verus!
