//! MIDI parsing, mapping and the control-change latch.

use osci_rs::midi::{
    parse_cc_message, poll_any, poll_updates, unmapped_params, MidiMapping, MidiParam,
    SharedCcValues,
};

#[test]
fn test_parse_cc_message() {
    // A control change on channel 3: status 0xB3, controller 7, value 100.
    assert_eq!(parse_cc_message(&[0xB3, 7, 100]), Some((7, 100)));
    // Top bits of controller and value are masked off.
    assert_eq!(parse_cc_message(&[0xB0, 0x87, 0xFF]), Some((7, 127)));
    // Not a control change.
    assert_eq!(parse_cc_message(&[0x90, 60, 100]), None);
    // Wrong length.
    assert_eq!(parse_cc_message(&[0xB0, 7]), None);
    assert_eq!(parse_cc_message(&[0xB0, 7, 100, 0]), None);
}

#[test]
fn test_map_value_endpoints() {
    // Value 0 maps to the minimum, 127 to the maximum.
    assert_eq!(MidiParam::Volume.map_value(0), 0);
    assert_eq!(MidiParam::Volume.map_value(127), 1_000_000);
    assert_eq!(MidiParam::Frequency.map_value(0), 20_000_000);
    assert_eq!(MidiParam::Frequency.map_value(127), 200_000_000);
    assert_eq!(MidiParam::RotationSpeed.map_value(0), -5_000_000);
    assert_eq!(MidiParam::RotationSpeed.map_value(127), 5_000_000);
}

#[test]
fn test_shared_cc_values_latch() {
    let mut cc = SharedCcValues::new();
    assert_eq!(cc.poll(5), None);
    cc.set(5, 99);
    assert_eq!(cc.poll(5), Some(99));
    // The flag clears after one poll.
    assert_eq!(cc.poll(5), None);
}

#[test]
fn test_poll_updates_maps_changed_values() {
    let mut cc = SharedCcValues::new();
    let mappings = vec![
        MidiMapping { cc: 1, param: MidiParam::Volume },
        MidiMapping { cc: 2, param: MidiParam::Frequency },
    ];
    cc.set(1, 127);
    let updates = poll_updates(&mut cc, &mappings);
    assert_eq!(updates.len(), 1);
    assert_eq!(updates[0].0, MidiParam::Volume);
    assert_eq!(updates[0].1, 1_000_000);
    // Nothing left after the poll.
    let updates = poll_updates(&mut cc, &mappings);
    assert!(updates.is_empty());
}

#[test]
fn test_duplicate_mapping_fires_once() {
    // Two mappings on one controller: the first consumes the change.
    let mut cc = SharedCcValues::new();
    let mappings = vec![
        MidiMapping { cc: 3, param: MidiParam::Volume },
        MidiMapping { cc: 3, param: MidiParam::Zoom },
    ];
    cc.set(3, 64);
    let updates = poll_updates(&mut cc, &mappings);
    assert_eq!(updates.len(), 1);
    assert_eq!(updates[0].0, MidiParam::Volume);
}

#[test]
fn test_poll_any_finds_first_changed() {
    let mut cc = SharedCcValues::new();
    assert_eq!(poll_any(&mut cc), None);
    cc.set(42, 1);
    assert_eq!(poll_any(&mut cc), Some(42));
}

#[test]
fn test_unmapped_params() {
    let mappings = vec![
        MidiMapping { cc: 1, param: MidiParam::Volume },
    ];
    let unmapped = unmapped_params(&mappings);
    assert_eq!(unmapped.len(), MidiParam::all().len() - 1);
    assert!(!unmapped.contains(&MidiParam::Volume));
    assert!(unmapped.contains(&MidiParam::Frequency));
}

#[test]
fn test_param_names() {
    assert_eq!(MidiParam::Frequency.name(), "Frequency");
    assert_eq!(MidiParam::ScaleLfoFreq.name(), "Scale LFO Freq");
    assert_eq!(MidiParam::all().len(), 10);
}
