use gregory::midi::{event_from_message, parse_message, select_port, ChannelMessage, MidiChannel, NoteEvent};

#[test]
fn note_on_is_decoded() {
    assert_eq!(parse_message(&[0x90, 60, 100], MidiChannel::Omni), Some(NoteEvent::NoteOn { note: 60, velocity: 100 }));
}

#[test]
fn note_on_with_velocity_zero_is_note_off() {
    assert_eq!(parse_message(&[0x90, 60, 0], MidiChannel::Omni), Some(NoteEvent::NoteOff { note: 60 }));
}

#[test]
fn note_off_is_decoded() {
    assert_eq!(parse_message(&[0x83, 61, 64], MidiChannel::Omni), Some(NoteEvent::NoteOff { note: 61 }));
}

#[test]
fn pitch_bend_combines_two_data_bytes() {
    assert_eq!(parse_message(&[0xE0, 0, 64], MidiChannel::Omni), Some(NoteEvent::PitchBend { bend: 8192 }));
    assert_eq!(parse_message(&[0xE5, 0x7F, 0x7F], MidiChannel::Omni), Some(NoteEvent::PitchBend { bend: 16383 }));
    assert_eq!(parse_message(&[0xE0, 1, 0], MidiChannel::Omni), Some(NoteEvent::PitchBend { bend: 1 }));
}

#[test]
fn mod_wheel_controller_is_decoded() {
    assert_eq!(parse_message(&[0xB0, 1, 127], MidiChannel::Omni), Some(NoteEvent::ModWheel { value: 127 }));
}

#[test]
fn other_controllers_are_ignored() {
    assert_eq!(parse_message(&[0xB0, 7, 100], MidiChannel::Omni), None);
    assert_eq!(parse_message(&[0xB0, 33, 100], MidiChannel::Omni), None);
}

#[test]
fn channel_filter_selects_channel() {
    assert_eq!(
        parse_message(&[0x91, 60, 100], MidiChannel::Channel(2)),
        Some(NoteEvent::NoteOn { note: 60, velocity: 100 })
    );
    assert_eq!(parse_message(&[0x91, 60, 100], MidiChannel::Channel(1)), None);
    assert_eq!(parse_message(&[0xBF, 1, 5], MidiChannel::Channel(16)), Some(NoteEvent::ModWheel { value: 5 }));
    assert_eq!(parse_message(&[0xBF, 1, 5], MidiChannel::Channel(0)), None);
}

#[test]
fn malformed_and_system_messages_give_no_event() {
    assert_eq!(parse_message(&[], MidiChannel::Omni), None);
    assert_eq!(parse_message(&[60, 100], MidiChannel::Omni), None);
    assert_eq!(parse_message(&[0x90, 60], MidiChannel::Omni), None);
    assert_eq!(parse_message(&[0x90, 200, 100], MidiChannel::Omni), None);
    assert_eq!(parse_message(&[0x90, 60, 0x90], MidiChannel::Omni), None);
    assert_eq!(parse_message(&[0xF8], MidiChannel::Omni), None);
    assert_eq!(parse_message(&[0xF0, 1, 2, 0xF7], MidiChannel::Omni), None);
    assert_eq!(parse_message(&[0xC0, 5], MidiChannel::Omni), None);
    assert_eq!(parse_message(&[0xA0, 60, 10], MidiChannel::Omni), None);
}

#[test]
fn channel_accepts() {
    assert!(MidiChannel::Omni.accepts(15));
    assert!(MidiChannel::Channel(1).accepts(0));
    assert!(!MidiChannel::Channel(1).accepts(1));
    assert!(!MidiChannel::Channel(0).accepts(255));
}

#[test]
fn event_from_decoded_message() {
    let on = ChannelMessage::NoteOn { channel: 3, note: 64, velocity: 1 };
    assert_eq!(event_from_message(on, MidiChannel::Channel(4)), Some(NoteEvent::NoteOn { note: 64, velocity: 1 }));
    assert_eq!(event_from_message(on, MidiChannel::Channel(3)), None);
    let zero = ChannelMessage::NoteOn { channel: 0, note: 64, velocity: 0 };
    assert_eq!(event_from_message(zero, MidiChannel::Omni), Some(NoteEvent::NoteOff { note: 64 }));
    assert_eq!(event_from_message(ChannelMessage::Other, MidiChannel::Omni), None);
    let bend = ChannelMessage::PitchBend { channel: 0, bend: 100 };
    assert_eq!(event_from_message(bend, MidiChannel::Omni), Some(NoteEvent::PitchBend { bend: 100 }));
}

fn names(list: &[Option<&str>]) -> Vec<Option<String>> {
    list.iter().map(|n| n.map(|s| s.to_string())).collect()
}

#[test]
fn select_port_matches_substring_ignoring_case() {
    let ports = names(&[Some("KeyStep Pro"), Some("MiniFuse 4")]);
    assert_eq!(select_port(&ports, "minifuse"), Some(1));
    assert_eq!(select_port(&ports, "KEYSTEP"), Some(0));
    assert_eq!(select_port(&ports, "Fuse 4"), Some(1));
}

#[test]
fn select_port_falls_back_to_first() {
    let ports = names(&[Some("KeyStep Pro"), Some("MiniFuse 4")]);
    assert_eq!(select_port(&ports, "USB"), Some(0));
}

#[test]
fn select_port_empty_hint_picks_first_readable() {
    assert_eq!(select_port(&names(&[Some("A"), Some("B")]), ""), Some(0));
    assert_eq!(select_port(&names(&[None, Some("B")]), ""), Some(1));
    assert_eq!(select_port(&names(&[None, None]), ""), Some(0));
}

#[test]
fn select_port_without_ports() {
    assert_eq!(select_port(&Vec::new(), "x"), None);
}
