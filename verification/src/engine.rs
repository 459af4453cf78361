//! The audio engine core: pre-sampling, the render loop, and the control
//! surface's decisions.
//!
//! A shape is baked into a fixed lookup table of XY samples at a trace
//! frequency; the render loop walks the table cyclically, applies the
//! effect chain, emits one stereo frame per step and decimates the output
//! into the ring buffer.  Device and stream handling live outside; this
//! module holds every decision and every sample computation.

use vstd::prelude::*;
use vstd::string::StringExecFns;

use crate::buffer::{zero_samples, SampleBuffer, XYSample};
use crate::effects::{chain_apply_spec, Effect, EffectChain, LfoScale, Rotate};
use crate::fx::{div_tz, fx_mul, fx_mul_spec, sat64, sat_i128, Fx, FX_ONE};
use crate::lfo::{Lfo, LfoWaveform};
use crate::shapes::{sample_param_spec, Shape};

verus! {

/// Audio engine configuration.
#[derive(Clone, Copy, Debug)]
pub struct AudioConfig {
    /// How many times per second to trace the shape (Hz).
    pub frequency: Fx,
    /// Output volume (0 to 1).
    pub volume: Fx,
}

impl Default for AudioConfig {
    /// 80 traces per second at 80 percent volume.
    fn default() -> (r: Self)
        ensures
            r.frequency == 80 * FX_ONE,
            r.volume == 800_000,
    {
        AudioConfig { frequency: 80 * FX_ONE, volume: 800_000 }
    }
}

/// Pre-sampled shape data replayed by the render loop.
pub struct ShapeData {
    /// The sampled XY points, already scaled by the volume.
    pub samples: Vec<XYSample>,
    /// Name of the current shape.
    pub name: String,
}

/// Effect parameters shared with the render loop; the chain is rebuilt
/// from these few scalars on every callback.
#[derive(Clone, Copy, Debug)]
pub struct EffectParams {
    /// Rotation speed in radians per second.
    pub rotation_speed: Fx,
    /// Whether rotation is enabled.
    pub rotation_enabled: bool,
    /// Scale LFO frequency.
    pub scale_lfo_freq: Fx,
    /// Scale LFO minimum.
    pub scale_lfo_min: Fx,
    /// Scale LFO maximum.
    pub scale_lfo_max: Fx,
    /// Whether the scale LFO is enabled.
    pub scale_lfo_enabled: bool,
    /// Scale LFO waveform shape.
    pub scale_lfo_waveform: LfoWaveform,
}

impl Default for EffectParams {
    /// No effect enabled; a gentle pulse configured but off.
    fn default() -> (r: Self)
        ensures
            r == (EffectParams {
                rotation_speed: 0i64,
                rotation_enabled: false,
                scale_lfo_freq: 1_000_000i64,
                scale_lfo_min: 800_000i64,
                scale_lfo_max: 1_200_000i64,
                scale_lfo_enabled: false,
                scale_lfo_waveform: LfoWaveform::Sine,
            }),
    {
        EffectParams {
            rotation_speed: 0,
            rotation_enabled: false,
            scale_lfo_freq: 1_000_000,
            scale_lfo_min: 800_000,
            scale_lfo_max: 1_200_000,
            scale_lfo_enabled: false,
            scale_lfo_waveform: LfoWaveform::Sine,
        }
    }
}

/// The chain a parameter set describes: an animated rotation when enabled
/// with a nonzero speed, then a pulsing scale when enabled.
pub open spec fn build_chain_spec(params: EffectParams) -> Seq<Effect> {
    let base = Seq::<Effect>::empty();
    let with_rotation = if params.rotation_enabled && params.rotation_speed != 0 {
        base.push(
            Effect::Rotate(Rotate { angle: 0i64, speed: params.rotation_speed, enabled: true }),
        )
    } else {
        base
    };
    if params.scale_lfo_enabled {
        with_rotation.push(
            Effect::LfoScale(
                LfoScale {
                    base_scale: FX_ONE,
                    lfo: Lfo {
                        frequency: params.scale_lfo_freq,
                        waveform: params.scale_lfo_waveform,
                        min: params.scale_lfo_min,
                        max: params.scale_lfo_max,
                        phase_offset: 0i64,
                        enabled: true,
                    },
                    enabled: true,
                },
            ),
        )
    } else {
        with_rotation
    }
}

impl EffectParams {
    /// Build an effect chain from the current parameters.
    fn build_chain(&self) -> (r: EffectChain)
        ensures
            r@ == build_chain_spec(*self),
    {
        let mut chain = EffectChain::new();
        if self.rotation_enabled && self.rotation_speed != 0 {
            chain.add(Effect::Rotate(Rotate::animated(self.rotation_speed)));
        }
        if self.scale_lfo_enabled {
            chain.add(
                Effect::LfoScale(
                    LfoScale::new(
                        self.scale_lfo_freq,
                        self.scale_lfo_min,
                        self.scale_lfo_max,
                    ).waveform(self.scale_lfo_waveform),
                ),
            );
        }
        proof {
            assert(chain@ =~= build_chain_spec(*self));
        }
        chain
    }
}

/// Engine status reported by the control surface.
#[derive(Clone, Copy, Debug, PartialEq, Eq, Structural)]
pub enum EngineStatus {
    /// Engine created, nothing started yet.
    Ready,
    /// Playback stopped.
    Stopped,
    /// Playback running.
    Playing,
    /// Start refused: no shape was set.
    NoShape,
    /// Start failed: no output device exists.
    DeviceUnavailable,
    /// Start failed: the device configuration could not be read.
    ConfigUnavailable,
    /// Start failed: the device's sample format is unsupported.
    UnsupportedFormat,
    /// Start failed: the platform could not build the stream.
    StreamBuildFailure,
    /// Start failed: the platform could not start the stream.
    StreamStartFailure,
}

impl EngineStatus {
    /// A short message describing the status.
    ///
    /// The status is a code: composing a richer line around it (the
    /// running shape's name, frequency and volume, which the engine
    /// exposes through `current_shape_name` and `config`) is deliberately
    /// the display shell's job.
    pub fn message(&self) -> (r: String)
        ensures
            r@ == match self {
                EngineStatus::Ready => "Ready"@,
                EngineStatus::Stopped => "Stopped"@,
                EngineStatus::Playing => "Playing"@,
                EngineStatus::NoShape => "No shape set - select a shape first"@,
                EngineStatus::DeviceUnavailable => "Error: No output device found"@,
                EngineStatus::ConfigUnavailable => "Error getting config"@,
                EngineStatus::UnsupportedFormat => "Unsupported sample format"@,
                EngineStatus::StreamBuildFailure => "Error building stream"@,
                EngineStatus::StreamStartFailure => "Error starting stream"@,
            },
    {
        match self {
            EngineStatus::Ready => String::from_str("Ready"),
            EngineStatus::Stopped => String::from_str("Stopped"),
            EngineStatus::Playing => String::from_str("Playing"),
            EngineStatus::NoShape => String::from_str("No shape set - select a shape first"),
            EngineStatus::DeviceUnavailable => String::from_str("Error: No output device found"),
            EngineStatus::ConfigUnavailable => String::from_str("Error getting config"),
            EngineStatus::UnsupportedFormat => String::from_str("Unsupported sample format"),
            EngineStatus::StreamBuildFailure => String::from_str("Error building stream"),
            EngineStatus::StreamStartFailure => String::from_str("Error starting stream"),
        }
    }

    /// Whether this status is one of the start failures, after which the
    /// engine stays stopped.
    pub open spec fn is_start_failure(&self) -> bool {
        match self {
            EngineStatus::NoShape => true,
            EngineStatus::DeviceUnavailable => true,
            EngineStatus::ConfigUnavailable => true,
            EngineStatus::UnsupportedFormat => true,
            EngineStatus::StreamBuildFailure => true,
            EngineStatus::StreamStartFailure => true,
            _ => false,
        }
    }
}

/// What the control surface decides when asked to start.
#[derive(Clone, Copy, Debug, PartialEq, Eq, Structural)]
pub enum StartCheck {
    /// Already running: starting again changes nothing.
    AlreadyRunning,
    /// No shape was set: the engine must stay stopped and report it.
    NoShape,
    /// The platform layer may open the device and build the stream.
    Ready,
}

/// The table size a trace frequency asks for: the sample rate divided by
/// the frequency, rounded to the nearest whole number, but never below 10.
pub open spec fn samples_per_shape_spec(sample_rate: int, frequency: int) -> int {
    let rounded = (2 * sample_rate * FX_ONE + frequency) / (2 * frequency);
    if rounded < 10 {
        10
    } else {
        rounded
    }
}

/// The time base of frame `i` after `total` samples: whole samples over
/// the sample rate, in fixed-point seconds.
pub open spec fn frame_time_spec(total: int, i: int, sample_rate: int) -> int {
    sat64(div_tz((total + i) * FX_ONE, sample_rate))
}

/// One pre-sampled table entry: the shape sampled at `i/n` of a trace,
/// scaled by the volume.
pub open spec fn pre_sampled_entry<S: Shape>(shape: &S, n: int, volume: int, i: int) -> XYSample {
    let p = shape.sample_spec(sample_param_spec(i, n));
    XYSample { x: fx_mul_spec(p.0, volume) as i64, y: fx_mul_spec(p.1, volume) as i64 }
}

/// Two curves that sample alike pre-sample alike: the table is a pure
/// function of the curve's sampling behaviour, the table size and the
/// volume, so identical inputs give identical tables.
pub proof fn lemma_pre_sample_deterministic<S1: Shape, S2: Shape>(
    s1: &S1,
    s2: &S2,
    n: int,
    volume: int,
)
    requires
        forall|t: int| s1.sample_spec(t) == s2.sample_spec(t),
    ensures
        forall|i: int|
            0 <= i < n ==> pre_sampled_entry(s1, n, volume, i) == pre_sampled_entry(
                s2,
                n,
                volume,
                i,
            ),
{
}

/// The mono mixdown of a stereo XY frame: the mean of the two channels,
/// truncated toward zero.
pub fn mono_mix(x: Fx, y: Fx) -> (r: Fx)
    ensures
        r as int == crate::fx::fx_half_spec(crate::fx::fx_add_spec(x as int, y as int)),
{
    crate::fx::fx_half(crate::fx::fx_add(x, y))
}

/// The audio engine: owns the pre-sampled shape, the render cursor, the
/// effect parameters and the visualization buffer, and makes every control
/// decision.  The platform layer around it owns the device and the stream
/// and calls in here for all logic.
pub struct AudioEngine {
    /// Whether audio is currently playing.
    is_playing: bool,
    /// Buffer for sharing rendered samples with the display side.
    pub buffer: SampleBuffer,
    /// Current configuration.
    pub config: AudioConfig,
    /// Pre-sampled shape data.
    shape_data: ShapeData,
    /// Current read position in the table.
    sample_index: usize,
    /// Status reported to the control surface.
    status: EngineStatus,
    /// Sample rate of the output device.
    sample_rate: u32,
    /// Number of audio samples per shape trace.
    samples_per_shape: usize,
    /// Effect parameters applied by the render loop.
    effect_params: EffectParams,
    /// Total samples played, the time base for time-varying effects.
    total_samples: u64,
    /// Every how many frames one lands in the visualization buffer.
    pub viz_decimation: usize,
}

impl AudioEngine {
    /// The machine limits the engine keeps: a live buffer, an audio-range
    /// sample rate, and a nonzero decimation step.
    pub closed spec fn wf(&self) -> bool {
        &&& self.buffer.wf()
        &&& 1 <= self.sample_rate <= 1_000_000
        &&& self.viz_decimation >= 1
    }

    /// The visualization buffer.
    pub closed spec fn buffer_view(&self) -> SampleBuffer {
        self.buffer
    }

    /// The configuration.
    pub closed spec fn config_spec(&self) -> AudioConfig {
        self.config
    }

    /// The decimation step.
    pub closed spec fn viz_spec(&self) -> int {
        self.viz_decimation as int
    }

    /// The pre-sampled table.
    pub closed spec fn table(&self) -> Seq<XYSample> {
        self.shape_data.samples@
    }

    /// The name of the current shape.
    pub closed spec fn shape_name(&self) -> Seq<char> {
        self.shape_data.name@
    }

    /// The current read position in the table.
    pub closed spec fn index(&self) -> int {
        self.sample_index as int
    }

    /// The total number of samples played.
    pub closed spec fn total(&self) -> int {
        self.total_samples as int
    }

    /// The sample rate of the output device.
    pub closed spec fn rate(&self) -> int {
        self.sample_rate as int
    }

    /// Whether audio is currently playing.
    pub closed spec fn playing(&self) -> bool {
        self.is_playing
    }

    /// The current status.
    pub closed spec fn status_spec(&self) -> EngineStatus {
        self.status
    }

    /// The current effect parameters.
    pub closed spec fn params(&self) -> EffectParams {
        self.effect_params
    }

    /// Create a new audio engine around a visualization buffer.
    pub fn new(buffer: SampleBuffer) -> (r: Self)
        requires
            buffer.wf(),
        ensures
            r.wf(),
            !r.playing(),
            r.buffer_view() == buffer,
            r.config_spec().frequency == 80 * FX_ONE && r.config_spec().volume == 800_000,
            r.table().len() == 0,
            r.shape_name() == "None"@,
            r.index() == 0,
            r.status_spec() == EngineStatus::Ready,
            r.rate() == 48_000,
            r.total() == 0,
            r.params() == (EffectParams {
                rotation_speed: 0i64,
                rotation_enabled: false,
                scale_lfo_freq: 1_000_000i64,
                scale_lfo_min: 800_000i64,
                scale_lfo_max: 1_200_000i64,
                scale_lfo_enabled: false,
                scale_lfo_waveform: LfoWaveform::Sine,
            }),
            r.viz_spec() == 8,
    {
        AudioEngine {
            is_playing: false,
            buffer,
            config: AudioConfig::default(),
            shape_data: ShapeData { samples: Vec::new(), name: String::from_str("None") },
            sample_index: 0,
            status: EngineStatus::Ready,
            sample_rate: 48_000,
            samples_per_shape: 600,
            effect_params: EffectParams::default(),
            total_samples: 0,
            viz_decimation: 8,
        }
    }

    /// Update the effect parameters.
    pub fn set_effects(&mut self, params: EffectParams)
        ensures
            final(self).params() == params,
            final(self).playing() == old(self).playing(),
            final(self).buffer_view() == old(self).buffer_view(),
            final(self).config_spec() == old(self).config_spec(),
            final(self).table() == old(self).table(),
            final(self).shape_name() == old(self).shape_name(),
            final(self).index() == old(self).index(),
            final(self).total() == old(self).total(),
            final(self).rate() == old(self).rate(),
            final(self).status_spec() == old(self).status_spec(),
            final(self).viz_spec() == old(self).viz_spec(),
            old(self).wf() ==> final(self).wf(),
    {
        self.effect_params = params;
    }

    /// Update the configuration: the engine's well-formedness does not
    /// depend on it, so verified callers can retune frequency and volume
    /// freely before the next shape change.
    pub fn set_config(&mut self, config: AudioConfig)
        ensures
            final(self).config_spec() == config,
            final(self).playing() == old(self).playing(),
            final(self).buffer_view() == old(self).buffer_view(),
            final(self).table() == old(self).table(),
            final(self).shape_name() == old(self).shape_name(),
            final(self).index() == old(self).index(),
            final(self).total() == old(self).total(),
            final(self).rate() == old(self).rate(),
            final(self).params() == old(self).params(),
            final(self).status_spec() == old(self).status_spec(),
            final(self).viz_spec() == old(self).viz_spec(),
            old(self).wf() ==> final(self).wf(),
    {
        self.config = config;
    }

    /// Get the total number of samples played so far.
    pub fn total_samples(&self) -> (r: u64)
        ensures
            r == self.total(),
    {
        self.total_samples
    }

    /// Check if audio is currently playing.
    pub fn is_playing(&self) -> (r: bool)
        ensures
            r == self.playing(),
    {
        self.is_playing
    }

    /// Get the current shape name.
    pub fn current_shape_name(&self) -> (r: String)
        ensures
            r@ == self.shape_name(),
    {
        String::from_str(self.shape_data.name.as_str())
    }

    /// Get the current effect parameters.
    pub fn effects(&self) -> (r: EffectParams)
        ensures
            r == self.params(),
    {
        self.effect_params
    }

    /// Get the current status.
    pub fn status(&self) -> (r: EngineStatus)
        ensures
            r == self.status_spec(),
    {
        self.status
    }

    /// Set the shape to render: bake it into a table of
    /// `max(10, round(rate / frequency))` samples scaled by the volume,
    /// publish the table as one unit, and reset the read position.
    pub fn set_shape<S: Shape>(&mut self, shape: &S)
        requires
            old(self).wf(),
            old(self).config_spec().frequency >= FX_ONE,
        ensures
            final(self).wf(),
            final(self).table().len() == samples_per_shape_spec(
                old(self).rate(),
                old(self).config_spec().frequency as int,
            ),
            forall|i: int|
                0 <= i < final(self).table().len() ==> #[trigger] final(self).table()[i]
                    == pre_sampled_entry(
                    shape,
                    final(self).table().len() as int,
                    old(self).config_spec().volume as int,
                    i,
                ),
            final(self).shape_name() == shape.name_spec(),
            final(self).index() == 0,
            final(self).playing() == old(self).playing(),
            final(self).total() == old(self).total(),
            final(self).rate() == old(self).rate(),
            final(self).config_spec() == old(self).config_spec(),
            final(self).params() == old(self).params(),
            final(self).status_spec() == old(self).status_spec(),
            final(self).buffer_view() == old(self).buffer_view(),
            final(self).viz_spec() == old(self).viz_spec(),
    {
        let rate_scaled: i128 = (self.sample_rate as i128) * (2 * FX_ONE as i128);
        let rounded: i128 = (rate_scaled + self.config.frequency as i128) / (2
            * (self.config.frequency as i128));
        proof {
            vstd::arithmetic::div_mod::lemma_div_pos_is_pos(
                rate_scaled as int + self.config.frequency as int,
                2 * self.config.frequency as int,
            );
            vstd::arithmetic::div_mod::lemma_div_is_ordered(
                rate_scaled as int + self.config.frequency as int,
                2 * self.config.frequency as int * 1_000_001,
                2 * self.config.frequency as int,
            );
            vstd::arithmetic::div_mod::lemma_div_multiples_vanish(
                1_000_001,
                2 * self.config.frequency as int,
            );
            assert(rate_scaled as int + self.config.frequency as int <= 2
                * self.config.frequency as int * 1_000_001) by (nonlinear_arith)
                requires
                    self.config.frequency as int >= 1_000_000int,
                    rate_scaled as int == (self.sample_rate as int) * 2_000_000int,
                    1 <= self.sample_rate as int <= 1_000_000int,
            ;
        }
        let n: usize = if rounded < 10 {
            10
        } else {
            rounded as usize
        };
        let mut samples: Vec<XYSample> = Vec::new();
        let mut i: usize = 0;
        while i < n
            invariant
                i <= n,
                n <= 1_000_001,
                samples@.len() == i,
                self == old(self),
                forall|j: int|
                    0 <= j < i ==> #[trigger] samples@[j] == pre_sampled_entry(
                        shape,
                        n as int,
                        self.config.volume as int,
                        j,
                    ),
            decreases n - i,
        {
            let wide: i128 = (i as i128) * (FX_ONE as i128);
            proof {
                vstd::arithmetic::div_mod::lemma_div_pos_is_pos(wide as int, n as int);
                vstd::arithmetic::div_mod::lemma_div_is_ordered(wide as int,
                    n as int * FX_ONE as int, n as int);
                vstd::arithmetic::div_mod::lemma_div_multiples_vanish(FX_ONE as int, n as int);
                assert(0 <= i as int * FX_ONE as int <= n as int * FX_ONE as int)
                    by (nonlinear_arith)
                    requires
                        0 <= i as int <= n as int,
                ;
            }
            let t: Fx = (wide / (n as i128)) as i64;
            let p: (Fx, Fx) = shape.sample(t);
            samples.push(
                XYSample { x: fx_mul(p.0, self.config.volume), y: fx_mul(p.1, self.config.volume) },
            );
            i = i + 1;
        }
        self.shape_data = ShapeData { samples, name: String::from_str(shape.name()) };
        self.samples_per_shape = n;
        self.sample_index = 0;
    }

    /// Update the shape while playing (re-samples with current settings).
    pub fn update_shape<S: Shape>(&mut self, shape: &S)
        requires
            old(self).wf(),
            old(self).config_spec().frequency >= FX_ONE,
        ensures
            final(self).wf(),
            final(self).table().len() == samples_per_shape_spec(
                old(self).rate(),
                old(self).config_spec().frequency as int,
            ),
            forall|i: int|
                0 <= i < final(self).table().len() ==> #[trigger] final(self).table()[i]
                    == pre_sampled_entry(
                    shape,
                    final(self).table().len() as int,
                    old(self).config_spec().volume as int,
                    i,
                ),
            final(self).shape_name() == shape.name_spec(),
            final(self).index() == 0,
            final(self).playing() == old(self).playing(),
    {
        self.set_shape(shape);
    }

    /// Decide what starting playback should do, without doing it: starting
    /// while running changes nothing; starting with no shape fails and
    /// reports it; otherwise the platform layer may proceed.
    pub fn check_start(&self) -> (r: StartCheck)
        ensures
            r == StartCheck::AlreadyRunning <==> self.playing(),
            r == StartCheck::NoShape <==> (!self.playing() && self.table().len() == 0),
            r == StartCheck::Ready <==> (!self.playing() && self.table().len() > 0),
    {
        if self.is_playing {
            StartCheck::AlreadyRunning
        } else if self.shape_data.samples.len() == 0 {
            StartCheck::NoShape
        } else {
            StartCheck::Ready
        }
    }

    /// Record a start failure: the engine stays stopped and reports the
    /// failure; nothing is retried automatically.
    pub fn mark_start_failed(&mut self, failure: EngineStatus)
        requires
            failure.is_start_failure(),
        ensures
            final(self).status_spec() == failure,
            final(self).playing() == old(self).playing(),
            final(self).buffer_view() == old(self).buffer_view(),
            final(self).config_spec() == old(self).config_spec(),
            final(self).table() == old(self).table(),
            final(self).shape_name() == old(self).shape_name(),
            final(self).index() == old(self).index(),
            final(self).total() == old(self).total(),
            final(self).rate() == old(self).rate(),
            final(self).params() == old(self).params(),
            final(self).viz_spec() == old(self).viz_spec(),
            old(self).wf() ==> final(self).wf(),
    {
        self.status = failure;
    }

    /// Record a successful stream start at the device's sample rate.
    pub fn mark_started(&mut self, sample_rate: u32)
        requires
            old(self).wf(),
            1 <= sample_rate <= 1_000_000,
        ensures
            final(self).wf(),
            final(self).playing(),
            final(self).rate() == sample_rate,
            final(self).status_spec() == EngineStatus::Playing,
            final(self).table() == old(self).table(),
            final(self).index() == old(self).index(),
            final(self).total() == old(self).total(),
            final(self).buffer_view() == old(self).buffer_view(),
            final(self).params() == old(self).params(),
            final(self).config_spec() == old(self).config_spec(),
            final(self).viz_spec() == old(self).viz_spec(),
            final(self).shape_name() == old(self).shape_name(),
    {
        self.is_playing = true;
        self.sample_rate = sample_rate;
        self.status = EngineStatus::Playing;
    }

    /// The frame the render loop emits at offset `i` from this state: the
    /// table entry at the wrapped cursor, transformed by the effect chain
    /// at the time base of sample `total + i`.
    pub closed spec fn frame_spec(&self, i: int) -> XYSample {
        let n = self.shape_data.samples@.len() as int;
        let idx = (self.sample_index + i) % n;
        let p = self.shape_data.samples@[idx];
        let time = frame_time_spec(self.total_samples as int, i, self.sample_rate as int);
        let c = chain_apply_spec(
            build_chain_spec(self.effect_params),
            p.x as int,
            p.y as int,
            time,
        );
        XYSample { x: c.0 as i64, y: c.1 as i64 }
    }

    /// What `frame_spec` is, over the public views.
    pub proof fn lemma_frame_spec(&self, i: int)
        requires
            self.table().len() > 0,
        ensures
            self.frame_spec(i) == ({
                let idx = (self.index() + i) % (self.table().len() as int);
                let p = self.table()[idx];
                let c = chain_apply_spec(
                    build_chain_spec(self.params()),
                    p.x as int,
                    p.y as int,
                    frame_time_spec(self.total(), i, self.rate()),
                );
                XYSample { x: c.0 as i64, y: c.1 as i64 }
            }),
    {
    }

    /// With no effect in the chain, the render loop's output is periodic
    /// in the table: frames whose cursors wrap to the same table entry are
    /// identical, whatever their time base.
    pub proof fn lemma_render_periodic(&self, i: int, j: int)
        requires
            self.table().len() > 0,
            build_chain_spec(self.params()).len() == 0,
            (self.index() + i) % (self.table().len() as int) == (self.index() + j) % (
            self.table().len() as int),
        ensures
            self.frame_spec(i) == self.frame_spec(j),
    {
    }

    /// The frames the render loop hands to the visualization buffer out of
    /// one block: every frame whose absolute cursor is a multiple of the
    /// decimation step, in order.
    pub closed spec fn viz_frames_spec(&self, count: int) -> Seq<XYSample>
        decreases count,
    {
        if count <= 0 {
            Seq::empty()
        } else {
            let prev = self.viz_frames_spec(count - 1);
            if (self.sample_index + (count - 1)) % (self.viz_decimation as int) == 0 {
                prev.push(self.frame_spec(count - 1))
            } else {
                prev
            }
        }
    }

    /// What `viz_frames_spec` is, over the public views: out of `count`
    /// frames, exactly those whose absolute cursor `index + i` is a
    /// multiple of the decimation step land in the buffer, in frame
    /// order.
    pub proof fn lemma_viz_frames_spec(&self, count: int)
        ensures
            count <= 0 ==> self.viz_frames_spec(count) == Seq::<XYSample>::empty(),
            count > 0 && (self.index() + (count - 1)) % self.viz_spec() == 0
                ==> self.viz_frames_spec(count) == self.viz_frames_spec(count - 1).push(
                self.frame_spec(count - 1),
            ),
            count > 0 && (self.index() + (count - 1)) % self.viz_spec() != 0
                ==> self.viz_frames_spec(count) == self.viz_frames_spec(count - 1),
    {
    }

    /// Render one block of stereo XY frames.
    ///
    /// When playback is off or no shape is set, the whole block is
    /// equilibrium silence and nothing changes.  Otherwise frame `i` is the
    /// table entry at `(index + i) mod N` put through the effect chain at
    /// its time base; every `viz_decimation`-th cursor position is pushed
    /// into the visualization buffer; and the cursor and sample counter
    /// advance by the block length.
    pub fn render_block(&mut self, frame_count: usize) -> (frames: Vec<XYSample>)
        requires
            old(self).wf(),
            old(self).total() + frame_count <= u64::MAX,
            old(self).buffer_view().written() + frame_count <= u64::MAX,
        ensures
            final(self).wf(),
            frames@.len() == frame_count,
            !(old(self).playing() && old(self).table().len() > 0) ==> {
                &&& frames@ == zero_samples(frame_count as int)
                &&& final(self).buffer_view() == old(self).buffer_view()
                &&& final(self).index() == old(self).index()
                &&& final(self).total() == old(self).total()
            },
            old(self).playing() && old(self).table().len() > 0 ==> {
                &&& (forall|i: int|
                    0 <= i < frame_count ==> #[trigger] frames@[i] == old(self).frame_spec(i))
                &&& final(self).index() == (old(self).index() + frame_count) % (
                old(self).table().len() as int)
                &&& final(self).total() == old(self).total() + frame_count
                &&& final(self).buffer_view().history() == old(self).buffer_view().history() + old(
                    self,
                ).viz_frames_spec(frame_count as int)
                &&& final(self).buffer_view().capacity_spec() == old(
                    self,
                ).buffer_view().capacity_spec()
            },
            final(self).playing() == old(self).playing(),
            final(self).table() == old(self).table(),
            final(self).shape_name() == old(self).shape_name(),
            final(self).rate() == old(self).rate(),
            final(self).params() == old(self).params(),
            final(self).status_spec() == old(self).status_spec(),
            final(self).config_spec() == old(self).config_spec(),
            final(self).viz_spec() == old(self).viz_spec(),
    {
        if !self.is_playing || self.shape_data.samples.len() == 0 {
            let mut frames: Vec<XYSample> = Vec::new();
            let mut i: usize = 0;
            while i < frame_count
                invariant
                    i <= frame_count,
                    frames@ =~= zero_samples(i as int),
                decreases frame_count - i,
            {
                frames.push(XYSample { x: 0, y: 0 });
                proof {
                    assert(frames@ =~= zero_samples(i as int + 1));
                }
                i = i + 1;
            }
            proof {
                assert(frames@ =~= zero_samples(frame_count as int));
            }
            return frames;
        }
        let n: usize = self.shape_data.samples.len();
        let chain: EffectChain = self.effect_params.build_chain();
        let start: usize = self.sample_index;
        let mut frames: Vec<XYSample> = Vec::new();
        let mut i: usize = 0;
        while i < frame_count
            invariant
                i <= frame_count,
                n == old(self).table().len(),
                n > 0,
                start == old(self).index(),
                self.is_playing == old(self).is_playing,
                self.shape_data == old(self).shape_data,
                self.sample_index == old(self).sample_index,
                self.total_samples == old(self).total_samples,
                self.effect_params == old(self).effect_params,
                self.sample_rate == old(self).sample_rate,
                self.samples_per_shape == old(self).samples_per_shape,
                self.viz_decimation == old(self).viz_decimation,
                self.status == old(self).status,
                self.config == old(self).config,
                old(self).wf(),
                self.buffer.wf(),
                self.buffer.capacity_spec() == old(self).buffer.capacity_spec(),
                self.buffer.history() == old(self).buffer.history() + old(self).viz_frames_spec(
                    i as int,
                ),
                old(self).buffer.written() <= self.buffer.written() <= old(self).buffer.written()
                    + i,
                old(self).buffer.written() + frame_count <= u64::MAX,
                old(self).total() + frame_count <= u64::MAX,
                frames@.len() == i,
                forall|j: int| 0 <= j < i ==> #[trigger] frames@[j] == old(self).frame_spec(j),
                chain@ == build_chain_spec(old(self).effect_params),
            decreases frame_count - i,
        {
            let idx: usize = (((start as u128) + (i as u128)) % (n as u128)) as usize;
            proof {
                vstd::arithmetic::div_mod::lemma_mod_bound(start as int + i as int, n as int);
            }
            let xy: XYSample = self.shape_data.samples[idx];
            assert(0 <= (self.total_samples as int + i as int) * 1_000_000int
                <= 40000000000000000000000000int) by (nonlinear_arith)
                requires
                    0 <= self.total_samples as int + i as int <= 40000000000000000000int,
            ;
            let tw: i128 = ((self.total_samples as i128) + (i as i128)) * (FX_ONE as i128);
            let tq: i128 = tw / (self.sample_rate as i128);
            proof {
                vstd::arithmetic::div_mod::lemma_div_pos_is_pos(tw as int, self.sample_rate as int);
            }
            let time: Fx = sat_i128(tq);
            let out: (Fx, Fx) = chain.apply(xy.x, xy.y, time);
            frames.push(XYSample { x: out.0, y: out.1 });
            proof {
                assert(frames@[i as int] == old(self).frame_spec(i as int));
            }
            let step: usize = self.viz_decimation;
            if (((start as u128) + (i as u128)) % (step as u128)) == 0 {
                let ghost pre_history = self.buffer.history();
                self.buffer.push(XYSample { x: out.0, y: out.1 });
                proof {
                    assert(self.buffer.history() =~= old(self).buffer.history() + old(
                        self,
                    ).viz_frames_spec(i as int + 1));
                }
            } else {
                proof {
                    assert(self.buffer.history() =~= old(self).buffer.history() + old(
                        self,
                    ).viz_frames_spec(i as int + 1));
                }
            }
            i = i + 1;
        }
        let new_index: usize = (((start as u128) + (frame_count as u128)) % (n as u128)) as usize;
        proof {
            vstd::arithmetic::div_mod::lemma_mod_bound(start as int + frame_count as int, n as int);
        }
        self.sample_index = new_index;
        self.total_samples = self.total_samples + frame_count as u64;
        frames
    }

    /// Stop audio playback.
    pub fn stop(&mut self)
        ensures
            !final(self).playing(),
            final(self).status_spec() == EngineStatus::Stopped,
            final(self).buffer_view() == old(self).buffer_view(),
            final(self).config_spec() == old(self).config_spec(),
            final(self).table() == old(self).table(),
            final(self).shape_name() == old(self).shape_name(),
            final(self).index() == old(self).index(),
            final(self).total() == old(self).total(),
            final(self).rate() == old(self).rate(),
            final(self).params() == old(self).params(),
            final(self).viz_spec() == old(self).viz_spec(),
            old(self).wf() ==> final(self).wf(),
    {
        self.is_playing = false;
        self.status = EngineStatus::Stopped;
    }
}

} // verus!
