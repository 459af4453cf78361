//! MIDI control mapping.
//!
//! Control-change values received from a MIDI port are latched per
//! controller number; the control surface polls them each frame and maps
//! each changed value into its parameter's range.  The port I/O itself
//! lives outside; everything here works on plain bytes and values.

use vstd::prelude::*;

use crate::fx::{div_tz, Fx};

verus! {

/// A parameter that can be driven by a MIDI control change.
#[derive(Clone, Copy, Debug, PartialEq, Eq, Hash, Structural)]
pub enum MidiParam {
    Frequency,
    Volume,
    RotationSpeed,
    ScaleLfoFreq,
    ScaleLfoMin,
    ScaleLfoMax,
    LineWidth,
    Intensity,
    Persistence,
    Zoom,
}

impl MidiParam {
    /// All mappable parameters, in display order.
    pub fn all() -> (r: Vec<MidiParam>)
        ensures
            r@ == seq![
                MidiParam::Frequency,
                MidiParam::Volume,
                MidiParam::RotationSpeed,
                MidiParam::ScaleLfoFreq,
                MidiParam::ScaleLfoMin,
                MidiParam::ScaleLfoMax,
                MidiParam::LineWidth,
                MidiParam::Intensity,
                MidiParam::Persistence,
                MidiParam::Zoom,
            ],
    {
        let mut v: Vec<MidiParam> = Vec::new();
        v.push(MidiParam::Frequency);
        v.push(MidiParam::Volume);
        v.push(MidiParam::RotationSpeed);
        v.push(MidiParam::ScaleLfoFreq);
        v.push(MidiParam::ScaleLfoMin);
        v.push(MidiParam::ScaleLfoMax);
        v.push(MidiParam::LineWidth);
        v.push(MidiParam::Intensity);
        v.push(MidiParam::Persistence);
        v.push(MidiParam::Zoom);
        proof {
            assert(v@ =~= seq![
                MidiParam::Frequency,
                MidiParam::Volume,
                MidiParam::RotationSpeed,
                MidiParam::ScaleLfoFreq,
                MidiParam::ScaleLfoMin,
                MidiParam::ScaleLfoMax,
                MidiParam::LineWidth,
                MidiParam::Intensity,
                MidiParam::Persistence,
                MidiParam::Zoom,
            ]);
        }
        v
    }

    /// Display name of this parameter.
    pub fn name(&self) -> (r: &'static str)
        ensures
            r@ == match self {
                MidiParam::Frequency => "Frequency"@,
                MidiParam::Volume => "Volume"@,
                MidiParam::RotationSpeed => "Rotation Speed"@,
                MidiParam::ScaleLfoFreq => "Scale LFO Freq"@,
                MidiParam::ScaleLfoMin => "Scale LFO Min"@,
                MidiParam::ScaleLfoMax => "Scale LFO Max"@,
                MidiParam::LineWidth => "Line Width"@,
                MidiParam::Intensity => "Intensity"@,
                MidiParam::Persistence => "Persistence"@,
                MidiParam::Zoom => "Zoom"@,
            },
    {
        match self {
            MidiParam::Frequency => "Frequency",
            MidiParam::Volume => "Volume",
            MidiParam::RotationSpeed => "Rotation Speed",
            MidiParam::ScaleLfoFreq => "Scale LFO Freq",
            MidiParam::ScaleLfoMin => "Scale LFO Min",
            MidiParam::ScaleLfoMax => "Scale LFO Max",
            MidiParam::LineWidth => "Line Width",
            MidiParam::Intensity => "Intensity",
            MidiParam::Persistence => "Persistence",
            MidiParam::Zoom => "Zoom",
        }
    }

    /// The `(min, max)` range for this parameter.
    pub open spec fn range_spec(&self) -> (int, int) {
        match self {
            MidiParam::Frequency => (20_000_000int, 200_000_000int),
            MidiParam::Volume => (0int, 1_000_000int),
            MidiParam::RotationSpeed => (-5_000_000int, 5_000_000int),
            MidiParam::ScaleLfoFreq => (100_000int, 10_000_000int),
            MidiParam::ScaleLfoMin => (100_000int, 1_500_000int),
            MidiParam::ScaleLfoMax => (500_000int, 2_000_000int),
            MidiParam::LineWidth => (500_000int, 5_000_000int),
            MidiParam::Intensity => (100_000int, 1_000_000int),
            MidiParam::Persistence => (0int, 990_000int),
            MidiParam::Zoom => (100_000int, 2_000_000int),
        }
    }

    /// The `(min, max)` range for this parameter.
    fn range(&self) -> (r: (Fx, Fx))
        ensures
            r.0 as int == self.range_spec().0,
            r.1 as int == self.range_spec().1,
    {
        match self {
            MidiParam::Frequency => (20_000_000, 200_000_000),
            MidiParam::Volume => (0, 1_000_000),
            MidiParam::RotationSpeed => (-5_000_000, 5_000_000),
            MidiParam::ScaleLfoFreq => (100_000, 10_000_000),
            MidiParam::ScaleLfoMin => (100_000, 1_500_000),
            MidiParam::ScaleLfoMax => (500_000, 2_000_000),
            MidiParam::LineWidth => (500_000, 5_000_000),
            MidiParam::Intensity => (100_000, 1_000_000),
            MidiParam::Persistence => (0, 990_000),
            MidiParam::Zoom => (100_000, 2_000_000),
        }
    }

    /// The value a control-change byte maps to: `cc/127` of the way from
    /// the parameter's minimum to its maximum.
    pub open spec fn map_value_spec(&self, cc_value: int) -> int {
        let r = self.range_spec();
        r.0 + div_tz(cc_value * (r.1 - r.0), 127)
    }

    /// Map a MIDI control-change value (0 to 127) to this parameter's
    /// range.
    pub fn map_value(&self, cc_value: u8) -> (r: Fx)
        ensures
            r as int == self.map_value_spec(cc_value as int),
            cc_value <= 127 ==> self.range_spec().0 <= r as int <= self.range_spec().1,
    {
        let range: (Fx, Fx) = self.range();
        let span: i64 = range.1 - range.0;
        assert(0 <= span as int <= 200_000_000int);
        assert(0 <= cc_value as int * span as int <= 51000000000int) by (nonlinear_arith)
            requires
                0 <= cc_value as int <= 255,
                0 <= span as int <= 200_000_000int,
        ;
        let scaled: i64 = ((cc_value as i64) * span) / 127;
        proof {
            if cc_value <= 127 {
                lemma_scale_127(cc_value as int, span as int);
            }
            vstd::arithmetic::div_mod::lemma_div_pos_is_pos(cc_value as int * span as int, 127);
        }
        range.0 + scaled
    }
}

/// Scaling a nonnegative span by at most 127 over 127 stays within it.
proof fn lemma_scale_127(cc: int, span: int)
    requires
        0 <= cc <= 127,
        0 <= span,
    ensures
        0 <= div_tz(cc * span, 127) <= span,
{
    vstd::arithmetic::mul::lemma_mul_nonnegative(cc, span);
    vstd::arithmetic::mul::lemma_mul_inequality(cc, 127, span);
    vstd::arithmetic::div_mod::lemma_div_is_ordered(cc * span, 127 * span, 127);
    vstd::arithmetic::div_mod::lemma_div_multiples_vanish(span, 127);
    vstd::arithmetic::div_mod::lemma_div_pos_is_pos(cc * span, 127);
}

/// A single mapping from a controller number to a parameter.
#[derive(Clone, Copy, Debug, PartialEq, Eq, Structural)]
pub struct MidiMapping {
    pub cc: u8,
    pub param: MidiParam,
}

/// The control-change message a byte triple holds, if any: a status byte
/// of `0xB0` on any channel followed by a controller number and a value,
/// both masked to seven bits.
pub open spec fn parse_cc_spec(message: Seq<u8>) -> Option<(u8, u8)> {
    if message.len() == 3 && (message[0] & 0xF0) == 0xB0 {
        Some(((message[1] & 0x7F), (message[2] & 0x7F)))
    } else {
        None
    }
}

/// Parse a raw MIDI message as a control change: `Some((controller,
/// value))` exactly when the message is a three-byte control change.
pub fn parse_cc_message(message: &[u8]) -> (r: Option<(u8, u8)>)
    ensures
        r == parse_cc_spec(message@),
{
    if message.len() == 3 && (message[0] & 0xF0) == 0xB0 {
        Some((message[1] & 0x7F, message[2] & 0x7F))
    } else {
        None
    }
}

/// Latched control-change values: one slot per controller number, with a
/// changed flag cleared on poll.
pub struct SharedCcValues {
    /// Last received value per controller number.
    values: Vec<u8>,
    /// Which controllers changed since the last poll.
    changed: Vec<bool>,
}

impl SharedCcValues {
    /// One value slot per controller number, with its changed flag.
    pub closed spec fn values_view(&self) -> Seq<u8> {
        self.values@
    }

    /// Which controllers changed since the last poll.
    pub closed spec fn changed_view(&self) -> Seq<bool> {
        self.changed@
    }

    /// The slot tables always cover the 128 controller numbers.
    pub closed spec fn wf(&self) -> bool {
        self.values@.len() == 128 && self.changed@.len() == 128
    }

    /// Create the latch table, all values zero and nothing changed.
    pub fn new() -> (r: Self)
        ensures
            r.wf(),
            forall|i: int| 0 <= i < 128 ==> #[trigger] r.values_view()[i] == 0,
            forall|i: int| 0 <= i < 128 ==> !(#[trigger] r.changed_view()[i]),
    {
        let mut values: Vec<u8> = Vec::new();
        let mut changed: Vec<bool> = Vec::new();
        let mut i: usize = 0;
        while i < 128
            invariant
                i <= 128,
                values@.len() == i,
                changed@.len() == i,
                forall|j: int| 0 <= j < i ==> #[trigger] values@[j] == 0,
                forall|j: int| 0 <= j < i ==> !(#[trigger] changed@[j]),
            decreases 128 - i,
        {
            values.push(0);
            changed.push(false);
            i = i + 1;
        }
        SharedCcValues { values, changed }
    }

    /// Latch a received value and mark it changed.  Called for every
    /// control change that comes in from the port.
    pub fn set(&mut self, cc: u8, value: u8)
        requires
            old(self).wf(),
            cc < 128,
        ensures
            final(self).wf(),
            final(self).values_view() == old(self).values_view().update(cc as int, value),
            final(self).changed_view() == old(self).changed_view().update(cc as int, true),
    {
        self.values.set(cc as usize, value);
        self.changed.set(cc as usize, true);
    }

    /// Read a controller's value and clear its changed flag.  Returns the
    /// value exactly when it changed since the last poll.
    pub fn poll(&mut self, cc: u8) -> (r: Option<u8>)
        requires
            old(self).wf(),
            cc < 128,
        ensures
            final(self).wf(),
            final(self).values_view() == old(self).values_view(),
            final(self).changed_view() == old(self).changed_view().update(cc as int, false),
            old(self).changed_view()[cc as int] ==> r == Some(
                old(self).values_view()[cc as int],
            ),
            !old(self).changed_view()[cc as int] ==> r is None,
    {
        let was_changed: bool = self.changed[cc as usize];
        self.changed.set(cc as usize, false);
        if was_changed {
            Some(self.values[cc as usize])
        } else {
            proof {
                assert(self.changed@ =~= old(self).changed@.update(cc as int, false));
            }
            None
        }
    }
}

/// What one poll pass over a mapping list yields: walking the mappings in
/// order, each one whose controller still has its changed flag set
/// contributes its mapped value and clears the flag, so a controller
/// mapped twice fires only once.
pub open spec fn poll_updates_spec(
    values: Seq<u8>,
    changed: Seq<bool>,
    mappings: Seq<MidiMapping>,
) -> (Seq<(MidiParam, i64)>, Seq<bool>)
    decreases mappings.len(),
{
    if mappings.len() == 0 {
        (Seq::empty(), changed)
    } else {
        let prev = poll_updates_spec(values, changed, mappings.drop_last());
        let m = mappings.last();
        if prev.1[m.cc as int] {
            (
                prev.0.push((m.param, m.param.map_value_spec(values[m.cc as int] as int) as i64)),
                prev.1.update(m.cc as int, false),
            )
        } else {
            prev
        }
    }
}

/// The parameter updates one poll pass yields: for each mapping whose
/// controller changed since the last poll, the mapped value of what was
/// received; polling clears every polled flag.
pub fn poll_updates(cc_values: &mut SharedCcValues, mappings: &Vec<MidiMapping>) -> (updates: Vec<
    (MidiParam, Fx),
>)
    requires
        old(cc_values).wf(),
        forall|i: int| 0 <= i < mappings@.len() ==> (#[trigger] mappings@[i]).cc < 128,
    ensures
        final(cc_values).wf(),
        final(cc_values).values_view() == old(cc_values).values_view(),
        updates@ == poll_updates_spec(
            old(cc_values).values_view(),
            old(cc_values).changed_view(),
            mappings@,
        ).0,
        final(cc_values).changed_view() == poll_updates_spec(
            old(cc_values).values_view(),
            old(cc_values).changed_view(),
            mappings@,
        ).1,
{
    let mut updates: Vec<(MidiParam, Fx)> = Vec::new();
    let mut i: usize = 0;
    while i < mappings.len()
        invariant
            cc_values.wf(),
            forall|k: int| 0 <= k < mappings@.len() ==> (#[trigger] mappings@[k]).cc < 128,
            i <= mappings@.len(),
            cc_values.values_view() == old(cc_values).values_view(),
            updates@ == poll_updates_spec(
                old(cc_values).values_view(),
                old(cc_values).changed_view(),
                mappings@.subrange(0, i as int),
            ).0,
            cc_values.changed_view() == poll_updates_spec(
                old(cc_values).values_view(),
                old(cc_values).changed_view(),
                mappings@.subrange(0, i as int),
            ).1,
        decreases mappings@.len() - i,
    {
        proof {
            assert(mappings@.subrange(0, i as int + 1).drop_last() =~= mappings@.subrange(
                0,
                i as int,
            ));
        }
        let mapping: MidiMapping = mappings[i];
        let polled: Option<u8> = cc_values.poll(mapping.cc);
        match polled {
            Some(value) => {
                let mapped: Fx = mapping.param.map_value(value);
                updates.push((mapping.param, mapped));
            },
            None => {},
        }
        i = i + 1;
    }
    proof {
        assert(mappings@.subrange(0, mappings@.len() as int) =~= mappings@);
    }
    updates
}

/// The first controller at or after `i` whose changed flag is set.
pub open spec fn first_changed_spec(changed: Seq<bool>, i: int) -> Option<int>
    decreases 128 - i,
{
    if i < 0 || i >= 128 {
        None
    } else if changed[i] {
        Some(i)
    } else {
        first_changed_spec(changed, i + 1)
    }
}

/// The first changed controller, if any: scans all 128 controller numbers
/// in order, clearing each flag up to the hit, and reports the first one
/// that had changed.  Used by the learn mode to capture the next knob
/// touched.
pub fn poll_any(cc_values: &mut SharedCcValues) -> (r: Option<u8>)
    requires
        old(cc_values).wf(),
    ensures
        final(cc_values).wf(),
        final(cc_values).values_view() == old(cc_values).values_view(),
        match first_changed_spec(old(cc_values).changed_view(), 0) {
            Some(c) => r == Some(c as u8) && final(cc_values).changed_view()[c] == false,
            None => r is None,
        },
{
    let mut cc: u8 = 0;
    while cc < 128
        invariant
            cc <= 128,
            cc_values.wf(),
            cc_values.values_view() == old(cc_values).values_view(),
            first_changed_spec(old(cc_values).changed_view(), 0) == first_changed_spec(
                old(cc_values).changed_view(),
                cc as int,
            ),
            forall|k: int|
                cc as int <= k < 128 ==> #[trigger] cc_values.changed_view()[k] == old(
                    cc_values,
                ).changed_view()[k],
            forall|k: int| 0 <= k < cc as int ==> !(#[trigger] cc_values.changed_view()[k]),
        decreases 128 - cc,
    {
        let polled: Option<u8> = cc_values.poll(cc);
        if polled.is_some() {
            return Some(cc);
        }
        cc = cc + 1;
    }
    None
}

/// Whether any mapping drives a parameter.
pub open spec fn param_mapped_spec(mappings: Seq<MidiMapping>, param: MidiParam) -> bool {
    exists|j: int| 0 <= j < mappings.len() && (#[trigger] mappings[j]).param == param
}

/// The display-ordered parameters with no mapping left to drive them.
pub open spec fn unmapped_spec(all: Seq<MidiParam>, mappings: Seq<MidiMapping>) -> Seq<MidiParam>
    decreases all.len(),
{
    if all.len() == 0 {
        Seq::empty()
    } else {
        let prev = unmapped_spec(all.drop_last(), mappings);
        if param_mapped_spec(mappings, all.last()) {
            prev
        } else {
            prev.push(all.last())
        }
    }
}

/// The parameters not yet mapped, in display order.
pub fn unmapped_params(mappings: &Vec<MidiMapping>) -> (r: Vec<MidiParam>)
    ensures
        r@ == unmapped_spec(
            seq![
                MidiParam::Frequency,
                MidiParam::Volume,
                MidiParam::RotationSpeed,
                MidiParam::ScaleLfoFreq,
                MidiParam::ScaleLfoMin,
                MidiParam::ScaleLfoMax,
                MidiParam::LineWidth,
                MidiParam::Intensity,
                MidiParam::Persistence,
                MidiParam::Zoom,
            ],
            mappings@,
        ),
        forall|i: int|
            0 <= i < r@.len() ==> forall|j: int|
                0 <= j < mappings@.len() ==> (#[trigger] mappings@[j]).param != #[trigger] r@[i],
{
    let all: Vec<MidiParam> = MidiParam::all();
    let mut r: Vec<MidiParam> = Vec::new();
    let mut i: usize = 0;
    while i < all.len()
        invariant
            i <= all@.len(),
            all@ == seq![
                MidiParam::Frequency,
                MidiParam::Volume,
                MidiParam::RotationSpeed,
                MidiParam::ScaleLfoFreq,
                MidiParam::ScaleLfoMin,
                MidiParam::ScaleLfoMax,
                MidiParam::LineWidth,
                MidiParam::Intensity,
                MidiParam::Persistence,
                MidiParam::Zoom,
            ],
            r@ == unmapped_spec(all@.subrange(0, i as int), mappings@),
            forall|k: int|
                0 <= k < r@.len() ==> forall|j: int|
                    0 <= j < mappings@.len() ==> (#[trigger] mappings@[j]).param != #[trigger] r@[k],
        decreases all@.len() - i,
    {
        proof {
            assert(all@.subrange(0, i as int + 1).drop_last() =~= all@.subrange(0, i as int));
        }
        let candidate: MidiParam = all[i];
        let mut mapped: bool = false;
        let mut j: usize = 0;
        while j < mappings.len()
            invariant
                j <= mappings@.len(),
                !mapped ==> forall|k: int|
                    0 <= k < j ==> (#[trigger] mappings@[k]).param != candidate,
                mapped ==> exists|k: int|
                    0 <= k < mappings@.len() && (#[trigger] mappings@[k]).param == candidate,
            decreases mappings@.len() - j,
        {
            if mappings[j].param == candidate {
                mapped = true;
            }
            j = j + 1;
        }
        if !mapped {
            r.push(candidate);
        }
        i = i + 1;
    }
    proof {
        assert(all@.subrange(0, all@.len() as int) =~= all@);
    }
    r
}

} // verus!
