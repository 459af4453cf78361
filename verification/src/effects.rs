//! Coordinate transform effects and the effect chain.
//!
//! Every effect is a pure function from an XY point and a time to a new XY
//! point; a chain folds its enabled effects in registration order.  Rotation
//! follows the standard 2D rotation matrix with an angle of base plus speed
//! times time; scale and translate are direct multiply and add; mirror
//! negates one or both axes; the LFO-driven variants modulate an angle, a
//! scale factor or an XY offset with a periodic waveform.

use vstd::prelude::*;

use crate::fx::{
    div_tz, fx_add, fx_add_spec, fx_mul, fx_mul_spec, fx_neg, fx_neg_spec, fx_sub, fx_sub_spec,
    fx_wrap_wide, wide_div_trunc, wide_mul, Fx, FX_ONE, FX_QUARTER, FX_TAU,
};
use crate::lfo::{lfo_sample_spec, Lfo, LfoWaveform};
use crate::trig::{cos_turns, cos_turns_spec, sin_turns, sin_turns_spec};

verus! {

/// Phase in turns of an angle in radians, wrapped into `[0, FX_ONE)`.
pub open spec fn radians_to_phase_spec(angle: int) -> int {
    div_tz(angle * FX_ONE, FX_TAU as int) % (FX_ONE as int)
}

/// Converts an angle in radians to a phase in turns.
pub fn radians_to_phase(angle: Fx) -> (r: Fx)
    ensures
        r as int == radians_to_phase_spec(angle as int),
        0 <= r < FX_ONE,
{
    let wide: i128 = wide_mul(angle, FX_ONE);
    let turns: i128 = wide_div_trunc(wide, FX_TAU);
    fx_wrap_wide(turns)
}

/// A point rotated around the origin by an angle in radians.
pub open spec fn rotate_point_spec(x: int, y: int, angle: int) -> (int, int) {
    let phase = radians_to_phase_spec(angle);
    let c = cos_turns_spec(phase);
    let s = sin_turns_spec(phase);
    (
        fx_sub_spec(fx_mul_spec(x, c), fx_mul_spec(y, s)),
        fx_add_spec(fx_mul_spec(x, s), fx_mul_spec(y, c)),
    )
}

/// Rotates a point around the origin by an angle in radians.
pub fn rotate_point(x: Fx, y: Fx, angle: Fx) -> (r: (Fx, Fx))
    ensures
        r.0 as int == rotate_point_spec(x as int, y as int, angle as int).0,
        r.1 as int == rotate_point_spec(x as int, y as int, angle as int).1,
{
    let phase: Fx = radians_to_phase(angle);
    let c: Fx = cos_turns(phase);
    let s: Fx = sin_turns(phase);
    let nx: Fx = fx_sub(fx_mul(x, c), fx_mul(y, s));
    let ny: Fx = fx_add(fx_mul(x, s), fx_mul(y, c));
    (nx, ny)
}

/// Rotation around the origin by a fixed angle plus optional animation.
#[derive(Clone, Copy, Debug)]
pub struct Rotate {
    /// Base rotation angle in radians.
    pub angle: Fx,
    /// Rotation speed in radians per second (0 = static).
    pub speed: Fx,
    /// Whether the effect is enabled.
    pub enabled: bool,
}

impl Rotate {
    /// Create a static rotation.
    pub fn new(angle: Fx) -> (r: Self)
        ensures
            r == (Rotate { angle, speed: 0i64, enabled: true }),
    {
        Rotate { angle, speed: 0, enabled: true }
    }

    /// Create an animated rotation.
    pub fn animated(speed: Fx) -> (r: Self)
        ensures
            r == (Rotate { angle: 0i64, speed, enabled: true }),
    {
        Rotate { angle: 0, speed, enabled: true }
    }

    /// Create a rotation with both base angle and animation.
    pub fn with_speed(angle: Fx, speed: Fx) -> (r: Self)
        ensures
            r == (Rotate { angle, speed, enabled: true }),
    {
        Rotate { angle, speed, enabled: true }
    }

    /// The rotation applied at a time: the angle grows with the speed.
    pub open spec fn apply_spec(&self, x: int, y: int, time: int) -> (int, int) {
        rotate_point_spec(x, y, fx_add_spec(self.angle as int, fx_mul_spec(self.speed as int, time)))
    }

    /// Apply the rotation to a point.
    pub fn apply(&self, x: Fx, y: Fx, time: Fx) -> (r: (Fx, Fx))
        ensures
            r.0 as int == self.apply_spec(x as int, y as int, time as int).0,
            r.1 as int == self.apply_spec(x as int, y as int, time as int).1,
    {
        let total_angle: Fx = fx_add(self.angle, fx_mul(self.speed, time));
        rotate_point(x, y, total_angle)
    }

    /// Display name of this effect.
    pub fn name(&self) -> (r: &'static str)
        ensures
            r@ == "Rotate"@,
    {
        "Rotate"
    }

    /// Whether this effect is currently enabled.
    pub fn is_enabled(&self) -> (r: bool)
        ensures
            r == self.enabled,
    {
        self.enabled
    }
}

/// Scaling relative to the origin.
#[derive(Clone, Copy, Debug)]
pub struct Scale {
    /// X scale factor (`FX_ONE` = no change).
    pub x: Fx,
    /// Y scale factor (`FX_ONE` = no change).
    pub y: Fx,
    /// Whether the effect is enabled.
    pub enabled: bool,
}

impl Scale {
    /// Create a uniform scale.
    pub fn uniform(factor: Fx) -> (r: Self)
        ensures
            r == (Scale { x: factor, y: factor, enabled: true }),
    {
        Scale { x: factor, y: factor, enabled: true }
    }

    /// Create a non-uniform scale.
    pub fn new(x: Fx, y: Fx) -> (r: Self)
        ensures
            r == (Scale { x, y, enabled: true }),
    {
        Scale { x, y, enabled: true }
    }

    /// Each coordinate multiplied by its factor.
    pub open spec fn apply_spec(&self, x: int, y: int, time: int) -> (int, int) {
        (fx_mul_spec(x, self.x as int), fx_mul_spec(y, self.y as int))
    }

    /// Apply the scale to a point.
    pub fn apply(&self, x: Fx, y: Fx, time: Fx) -> (r: (Fx, Fx))
        ensures
            r.0 as int == self.apply_spec(x as int, y as int, time as int).0,
            r.1 as int == self.apply_spec(x as int, y as int, time as int).1,
    {
        (fx_mul(x, self.x), fx_mul(y, self.y))
    }

    /// Display name of this effect.
    pub fn name(&self) -> (r: &'static str)
        ensures
            r@ == "Scale"@,
    {
        "Scale"
    }

    /// Whether this effect is currently enabled.
    pub fn is_enabled(&self) -> (r: bool)
        ensures
            r == self.enabled,
    {
        self.enabled
    }
}

/// Translation by a fixed offset.
#[derive(Clone, Copy, Debug)]
pub struct Translate {
    /// X offset.
    pub x: Fx,
    /// Y offset.
    pub y: Fx,
    /// Whether the effect is enabled.
    pub enabled: bool,
}

impl Translate {
    /// Create a translation.
    pub fn new(x: Fx, y: Fx) -> (r: Self)
        ensures
            r == (Translate { x, y, enabled: true }),
    {
        Translate { x, y, enabled: true }
    }

    /// Each coordinate shifted by its offset.
    pub open spec fn apply_spec(&self, x: int, y: int, time: int) -> (int, int) {
        (fx_add_spec(x, self.x as int), fx_add_spec(y, self.y as int))
    }

    /// Apply the translation to a point.
    pub fn apply(&self, x: Fx, y: Fx, time: Fx) -> (r: (Fx, Fx))
        ensures
            r.0 as int == self.apply_spec(x as int, y as int, time as int).0,
            r.1 as int == self.apply_spec(x as int, y as int, time as int).1,
    {
        (fx_add(x, self.x), fx_add(y, self.y))
    }

    /// Display name of this effect.
    pub fn name(&self) -> (r: &'static str)
        ensures
            r@ == "Translate"@,
    {
        "Translate"
    }

    /// Whether this effect is currently enabled.
    pub fn is_enabled(&self) -> (r: bool)
        ensures
            r == self.enabled,
    {
        self.enabled
    }
}

/// Which axis a mirror flips across.
#[derive(Clone, Copy, Debug, PartialEq, Eq, Structural)]
pub enum MirrorAxis {
    /// Mirror across the Y axis (flip X).
    Horizontal,
    /// Mirror across the X axis (flip Y).
    Vertical,
    /// Mirror across both axes.
    Both,
}

/// Mirroring across an axis.
#[derive(Clone, Copy, Debug)]
pub struct Mirror {
    /// Which axis to mirror across.
    pub axis: MirrorAxis,
    /// Whether the effect is enabled.
    pub enabled: bool,
}

impl Mirror {
    /// Create a mirror across the given axis.
    pub fn new(axis: MirrorAxis) -> (r: Self)
        ensures
            r == (Mirror { axis, enabled: true }),
    {
        Mirror { axis, enabled: true }
    }

    /// Mirror across the Y axis (flip X).
    pub fn horizontal() -> (r: Self)
        ensures
            r == (Mirror { axis: MirrorAxis::Horizontal, enabled: true }),
    {
        Mirror::new(MirrorAxis::Horizontal)
    }

    /// Mirror across the X axis (flip Y).
    pub fn vertical() -> (r: Self)
        ensures
            r == (Mirror { axis: MirrorAxis::Vertical, enabled: true }),
    {
        Mirror::new(MirrorAxis::Vertical)
    }

    /// One or both coordinates negated, by axis.
    pub open spec fn apply_spec(&self, x: int, y: int, time: int) -> (int, int) {
        match self.axis {
            MirrorAxis::Horizontal => (fx_neg_spec(x), y),
            MirrorAxis::Vertical => (x, fx_neg_spec(y)),
            MirrorAxis::Both => (fx_neg_spec(x), fx_neg_spec(y)),
        }
    }

    /// Apply the mirror to a point.
    pub fn apply(&self, x: Fx, y: Fx, time: Fx) -> (r: (Fx, Fx))
        ensures
            r.0 as int == self.apply_spec(x as int, y as int, time as int).0,
            r.1 as int == self.apply_spec(x as int, y as int, time as int).1,
    {
        match self.axis {
            MirrorAxis::Horizontal => (fx_neg(x), y),
            MirrorAxis::Vertical => (x, fx_neg(y)),
            MirrorAxis::Both => (fx_neg(x), fx_neg(y)),
        }
    }

    /// Display name of this effect.
    pub fn name(&self) -> (r: &'static str)
        ensures
            r@ == "Mirror"@,
    {
        "Mirror"
    }

    /// Whether this effect is currently enabled.
    pub fn is_enabled(&self) -> (r: bool)
        ensures
            r == self.enabled,
    {
        self.enabled
    }
}

/// Rotation whose angle is modulated by an LFO.
#[derive(Clone, Copy, Debug)]
pub struct LfoRotate {
    /// Base rotation angle in radians.
    pub base_angle: Fx,
    /// LFO for angle modulation.
    pub lfo: Lfo,
    /// Whether the effect is enabled.
    pub enabled: bool,
}

impl LfoRotate {
    /// Create a rotation oscillating over plus and minus `angle_range`
    /// radians at `lfo_frequency` Hz.
    pub fn new(lfo_frequency: Fx, angle_range: Fx) -> (r: Self)
        ensures
            r.base_angle == 0,
            r.lfo.frequency == lfo_frequency,
            r.lfo.min as int == fx_neg_spec(angle_range as int),
            r.lfo.max == angle_range,
            r.lfo.waveform == LfoWaveform::Sine,
            r.lfo.phase_offset == 0,
            r.lfo.enabled,
            r.enabled,
    {
        LfoRotate {
            base_angle: 0,
            lfo: Lfo::with_range(lfo_frequency, fx_neg(angle_range), angle_range),
            enabled: true,
        }
    }

    /// Set the LFO waveform.
    pub fn waveform(self, waveform: LfoWaveform) -> (r: Self)
        ensures
            r.lfo == (Lfo { waveform, ..self.lfo }),
            r.base_angle == self.base_angle,
            r.enabled == self.enabled,
    {
        LfoRotate { lfo: self.lfo.waveform(waveform), ..self }
    }

    /// Rotation by the base angle plus the LFO's value at this time.
    pub open spec fn apply_spec(&self, x: int, y: int, time: int) -> (int, int) {
        rotate_point_spec(
            x,
            y,
            fx_add_spec(self.base_angle as int, lfo_sample_spec(self.lfo, time)),
        )
    }

    /// Apply the modulated rotation to a point.
    pub fn apply(&self, x: Fx, y: Fx, time: Fx) -> (r: (Fx, Fx))
        ensures
            r.0 as int == self.apply_spec(x as int, y as int, time as int).0,
            r.1 as int == self.apply_spec(x as int, y as int, time as int).1,
    {
        let angle: Fx = fx_add(self.base_angle, self.lfo.sample(time));
        rotate_point(x, y, angle)
    }

    /// Display name of this effect.
    pub fn name(&self) -> (r: &'static str)
        ensures
            r@ == "LFO Rotate"@,
    {
        "LFO Rotate"
    }

    /// Whether this effect is currently enabled.
    pub fn is_enabled(&self) -> (r: bool)
        ensures
            r == self.enabled,
    {
        self.enabled
    }
}

/// Pulsing scale modulated by an LFO.
#[derive(Clone, Copy, Debug)]
pub struct LfoScale {
    /// Base scale factor.
    pub base_scale: Fx,
    /// LFO for scale modulation.
    pub lfo: Lfo,
    /// Whether the effect is enabled.
    pub enabled: bool,
}

impl LfoScale {
    /// Create a pulsing scale between `min_scale` and `max_scale` at
    /// `lfo_frequency` Hz.
    pub fn new(lfo_frequency: Fx, min_scale: Fx, max_scale: Fx) -> (r: Self)
        ensures
            r.base_scale == FX_ONE,
            r.lfo == (Lfo {
                frequency: lfo_frequency,
                waveform: LfoWaveform::Sine,
                min: min_scale,
                max: max_scale,
                phase_offset: 0i64,
                enabled: true,
            }),
            r.enabled,
    {
        LfoScale {
            base_scale: FX_ONE,
            lfo: Lfo::with_range(lfo_frequency, min_scale, max_scale),
            enabled: true,
        }
    }

    /// Set the LFO waveform.
    pub fn waveform(self, waveform: LfoWaveform) -> (r: Self)
        ensures
            r.lfo == (Lfo { waveform, ..self.lfo }),
            r.base_scale == self.base_scale,
            r.enabled == self.enabled,
    {
        LfoScale { lfo: self.lfo.waveform(waveform), ..self }
    }

    /// Both coordinates scaled by the LFO's value at this time.
    pub open spec fn apply_spec(&self, x: int, y: int, time: int) -> (int, int) {
        let scale = lfo_sample_spec(self.lfo, time);
        (fx_mul_spec(x, scale), fx_mul_spec(y, scale))
    }

    /// Apply the pulsing scale to a point.
    pub fn apply(&self, x: Fx, y: Fx, time: Fx) -> (r: (Fx, Fx))
        ensures
            r.0 as int == self.apply_spec(x as int, y as int, time as int).0,
            r.1 as int == self.apply_spec(x as int, y as int, time as int).1,
    {
        let scale: Fx = self.lfo.sample(time);
        (fx_mul(x, scale), fx_mul(y, scale))
    }

    /// Display name of this effect.
    pub fn name(&self) -> (r: &'static str)
        ensures
            r@ == "LFO Scale"@,
    {
        "LFO Scale"
    }

    /// Whether this effect is currently enabled.
    pub fn is_enabled(&self) -> (r: bool)
        ensures
            r == self.enabled,
    {
        self.enabled
    }
}

/// Wobbling translation modulated by two LFOs.
#[derive(Clone, Copy, Debug)]
pub struct LfoTranslate {
    /// LFO for X movement.
    pub lfo_x: Lfo,
    /// LFO for Y movement.
    pub lfo_y: Lfo,
    /// Whether the effect is enabled.
    pub enabled: bool,
}

impl LfoTranslate {
    /// Create a wobble of at most `amount` at `frequency` Hz; the Y axis
    /// runs a quarter period behind the X axis.
    pub fn new(frequency: Fx, amount: Fx) -> (r: Self)
        ensures
            r.lfo_x.frequency == frequency && r.lfo_y.frequency == frequency,
            r.lfo_x.min as int == fx_neg_spec(amount as int) && r.lfo_x.max == amount,
            r.lfo_y.min as int == fx_neg_spec(amount as int) && r.lfo_y.max == amount,
            r.lfo_x.phase_offset == 0 && r.lfo_y.phase_offset == FX_QUARTER,
            r.lfo_x.waveform == LfoWaveform::Sine && r.lfo_y.waveform == LfoWaveform::Sine,
            r.lfo_x.enabled && r.lfo_y.enabled,
            r.enabled,
    {
        LfoTranslate {
            lfo_x: Lfo::with_range(frequency, fx_neg(amount), amount),
            lfo_y: Lfo::with_range(frequency, fx_neg(amount), amount).phase(FX_QUARTER),
            enabled: true,
        }
    }

    /// Create a wobble with separate X and Y frequencies.
    pub fn separate(freq_x: Fx, freq_y: Fx, amount: Fx) -> (r: Self)
        ensures
            r.lfo_x.frequency == freq_x && r.lfo_y.frequency == freq_y,
            r.lfo_x.min as int == fx_neg_spec(amount as int) && r.lfo_x.max == amount,
            r.lfo_y.min as int == fx_neg_spec(amount as int) && r.lfo_y.max == amount,
            r.lfo_x.phase_offset == 0 && r.lfo_y.phase_offset == 0,
            r.lfo_x.waveform == LfoWaveform::Sine && r.lfo_y.waveform == LfoWaveform::Sine,
            r.lfo_x.enabled && r.lfo_y.enabled,
            r.enabled,
    {
        LfoTranslate {
            lfo_x: Lfo::with_range(freq_x, fx_neg(amount), amount),
            lfo_y: Lfo::with_range(freq_y, fx_neg(amount), amount),
            enabled: true,
        }
    }

    /// Each coordinate shifted by its LFO's value at this time.
    pub open spec fn apply_spec(&self, x: int, y: int, time: int) -> (int, int) {
        (
            fx_add_spec(x, lfo_sample_spec(self.lfo_x, time)),
            fx_add_spec(y, lfo_sample_spec(self.lfo_y, time)),
        )
    }

    /// Apply the wobble to a point.
    pub fn apply(&self, x: Fx, y: Fx, time: Fx) -> (r: (Fx, Fx))
        ensures
            r.0 as int == self.apply_spec(x as int, y as int, time as int).0,
            r.1 as int == self.apply_spec(x as int, y as int, time as int).1,
    {
        let dx: Fx = self.lfo_x.sample(time);
        let dy: Fx = self.lfo_y.sample(time);
        (fx_add(x, dx), fx_add(y, dy))
    }

    /// Display name of this effect.
    pub fn name(&self) -> (r: &'static str)
        ensures
            r@ == "LFO Translate"@,
    {
        "LFO Translate"
    }

    /// Whether this effect is currently enabled.
    pub fn is_enabled(&self) -> (r: bool)
        ensures
            r == self.enabled,
    {
        self.enabled
    }
}

/// An effect that transforms XY coordinates: one of the transform variants,
/// dispatched by match.
#[derive(Clone, Copy, Debug)]
pub enum Effect {
    Rotate(Rotate),
    Scale(Scale),
    Translate(Translate),
    Mirror(Mirror),
    LfoRotate(LfoRotate),
    LfoScale(LfoScale),
    LfoTranslate(LfoTranslate),
}

impl Effect {
    /// The transformed point this effect yields.
    pub open spec fn apply_spec(&self, x: int, y: int, time: int) -> (int, int) {
        match self {
            Effect::Rotate(e) => e.apply_spec(x, y, time),
            Effect::Scale(e) => e.apply_spec(x, y, time),
            Effect::Translate(e) => e.apply_spec(x, y, time),
            Effect::Mirror(e) => e.apply_spec(x, y, time),
            Effect::LfoRotate(e) => e.apply_spec(x, y, time),
            Effect::LfoScale(e) => e.apply_spec(x, y, time),
            Effect::LfoTranslate(e) => e.apply_spec(x, y, time),
        }
    }

    /// Whether the effect is enabled.
    pub open spec fn enabled_spec(&self) -> bool {
        match self {
            Effect::Rotate(e) => e.enabled,
            Effect::Scale(e) => e.enabled,
            Effect::Translate(e) => e.enabled,
            Effect::Mirror(e) => e.enabled,
            Effect::LfoRotate(e) => e.enabled,
            Effect::LfoScale(e) => e.enabled,
            Effect::LfoTranslate(e) => e.enabled,
        }
    }

    /// Apply the effect to an XY point.
    pub fn apply(&self, x: Fx, y: Fx, time: Fx) -> (r: (Fx, Fx))
        ensures
            r.0 as int == self.apply_spec(x as int, y as int, time as int).0,
            r.1 as int == self.apply_spec(x as int, y as int, time as int).1,
    {
        match self {
            Effect::Rotate(e) => e.apply(x, y, time),
            Effect::Scale(e) => e.apply(x, y, time),
            Effect::Translate(e) => e.apply(x, y, time),
            Effect::Mirror(e) => e.apply(x, y, time),
            Effect::LfoRotate(e) => e.apply(x, y, time),
            Effect::LfoScale(e) => e.apply(x, y, time),
            Effect::LfoTranslate(e) => e.apply(x, y, time),
        }
    }

    /// Display name of this effect.
    pub fn name(&self) -> (r: &'static str)
        ensures
            r@ == match self {
                Effect::Rotate(_) => "Rotate"@,
                Effect::Scale(_) => "Scale"@,
                Effect::Translate(_) => "Translate"@,
                Effect::Mirror(_) => "Mirror"@,
                Effect::LfoRotate(_) => "LFO Rotate"@,
                Effect::LfoScale(_) => "LFO Scale"@,
                Effect::LfoTranslate(_) => "LFO Translate"@,
            },
    {
        match self {
            Effect::Rotate(e) => e.name(),
            Effect::Scale(e) => e.name(),
            Effect::Translate(e) => e.name(),
            Effect::Mirror(e) => e.name(),
            Effect::LfoRotate(e) => e.name(),
            Effect::LfoScale(e) => e.name(),
            Effect::LfoTranslate(e) => e.name(),
        }
    }

    /// Whether this effect is currently enabled.
    pub fn is_enabled(&self) -> (r: bool)
        ensures
            r == self.enabled_spec(),
    {
        match self {
            Effect::Rotate(e) => e.is_enabled(),
            Effect::Scale(e) => e.is_enabled(),
            Effect::Translate(e) => e.is_enabled(),
            Effect::Mirror(e) => e.is_enabled(),
            Effect::LfoRotate(e) => e.is_enabled(),
            Effect::LfoScale(e) => e.is_enabled(),
            Effect::LfoTranslate(e) => e.is_enabled(),
        }
    }
}

/// The point a sequence of effects yields: each enabled effect is applied in
/// order, disabled effects are no-ops.
pub open spec fn chain_apply_spec(effects: Seq<Effect>, x: int, y: int, time: int) -> (int, int)
    decreases effects.len(),
{
    if effects.len() == 0 {
        (x, y)
    } else {
        let prev = chain_apply_spec(effects.drop_last(), x, y, time);
        if effects.last().enabled_spec() {
            effects.last().apply_spec(prev.0, prev.1, time)
        } else {
            prev
        }
    }
}

/// A chain of effects applied in sequence.
pub struct EffectChain {
    effects: Vec<Effect>,
}

impl View for EffectChain {
    type V = Seq<Effect>;

    closed spec fn view(&self) -> Seq<Effect> {
        self.effects@
    }
}

impl EffectChain {
    /// Create an empty effect chain.
    pub fn new() -> (r: Self)
        ensures
            r@ == Seq::<Effect>::empty(),
    {
        EffectChain { effects: Vec::new() }
    }

    /// Add an effect to the end of the chain.
    pub fn add(&mut self, effect: Effect)
        ensures
            final(self)@ == old(self)@.push(effect),
    {
        self.effects.push(effect);
    }

    /// Remove an effect by index; out-of-range indices remove nothing.
    pub fn remove(&mut self, index: usize) -> (r: Option<Effect>)
        ensures
            index < old(self)@.len() ==> {
                &&& r == Some(old(self)@[index as int])
                &&& final(self)@ == old(self)@.remove(index as int)
            },
            index >= old(self)@.len() ==> r is None && final(self)@ == old(self)@,
    {
        if index < self.effects.len() {
            Some(self.effects.remove(index))
        } else {
            None
        }
    }

    /// Get the number of effects.
    pub fn len(&self) -> (r: usize)
        ensures
            r == self@.len(),
    {
        self.effects.len()
    }

    /// Check if the chain is empty.
    pub fn is_empty(&self) -> (r: bool)
        ensures
            r == (self@.len() == 0),
    {
        self.effects.len() == 0
    }

    /// Apply all enabled effects in registration order.
    ///
    /// An empty chain returns the point unchanged, for all inputs.
    pub fn apply(&self, x: Fx, y: Fx, time: Fx) -> (r: (Fx, Fx))
        ensures
            r.0 as int == chain_apply_spec(self@, x as int, y as int, time as int).0,
            r.1 as int == chain_apply_spec(self@, x as int, y as int, time as int).1,
            self@.len() == 0 ==> r == (x, y),
    {
        let mut cx: Fx = x;
        let mut cy: Fx = y;
        let mut i: usize = 0;
        while i < self.effects.len()
            invariant
                i <= self.effects@.len(),
                self@ == self.effects@,
                cx as int == chain_apply_spec(self.effects@.subrange(0, i as int), x as int,
                    y as int, time as int).0,
                cy as int == chain_apply_spec(self.effects@.subrange(0, i as int), x as int,
                    y as int, time as int).1,
            decreases self.effects@.len() - i,
        {
            let effect = &self.effects[i];
            proof {
                assert(self.effects@.subrange(0, i as int + 1).drop_last() =~= self.effects@
                    .subrange(0, i as int));
                assert(self.effects@.subrange(0, i as int + 1).last() == self.effects@[i as int]);
            }
            if effect.is_enabled() {
                let next = effect.apply(cx, cy, time);
                cx = next.0;
                cy = next.1;
            }
            i = i + 1;
        }
        proof {
            assert(self.effects@.subrange(0, self.effects@.len() as int) =~= self.effects@);
        }
        (cx, cy)
    }

    /// Clear all effects.
    pub fn clear(&mut self)
        ensures
            final(self)@ == Seq::<Effect>::empty(),
    {
        self.effects.clear();
    }
}

impl Default for EffectChain {
    /// An empty chain.
    fn default() -> (r: Self)
        ensures
            r@ == Seq::<Effect>::empty(),
    {
        EffectChain::new()
    }
}

} // verus!
