use vsthost_minimal::buffer::{capture_midi_in, MidiInputBuffer};
use vsthost_minimal::events::{make_midi_event, pad_zeroes, EventKind, MIDI_EVENT_BYTE_SIZE};

#[test]
fn snapshot_holds_all_appends_in_arrival_order() {
    let mut buf = MidiInputBuffer::new();
    capture_midi_in(&mut buf, 1, &[0x90, 60, 100]);
    capture_midi_in(&mut buf, 2, &[0x80, 60, 0]);
    capture_midi_in(&mut buf, 3, &[0xB0, 7, 127]);
    let snap = buf.get_events();
    assert_eq!(snap.num_events, 3);
    assert_eq!(snap.events.len(), 3);
    assert_eq!(snap.events[0].midi_data, [0x90, 60, 100]);
    assert_eq!(snap.events[1].midi_data, [0x80, 60, 0]);
    assert_eq!(snap.events[2].midi_data, [0xB0, 7, 127]);
}

#[test]
fn clear_empties_and_next_snapshot_has_only_later_events() {
    let mut buf = MidiInputBuffer::new();
    capture_midi_in(&mut buf, 1, &[0x90, 60, 100]);
    capture_midi_in(&mut buf, 2, &[0x80, 60, 0]);
    buf.clear_midi_buffer();
    assert_eq!(buf.len(), 0);
    let empty_snap = buf.get_events();
    assert_eq!(empty_snap.num_events, 0);
    capture_midi_in(&mut buf, 3, &[0x90, 64, 90]);
    let snap = buf.get_events();
    assert_eq!(snap.num_events, 1);
    assert_eq!(snap.events[0].midi_data, [0x90, 64, 90]);
}

#[test]
fn three_byte_message_round_trips_unchanged() {
    let original: [u8; 3] = [0x90, 61, 101];
    let mut buf = MidiInputBuffer::new();
    capture_midi_in(&mut buf, 7, &original);
    let snap = buf.get_events();
    assert_eq!(snap.num_events, 1);
    assert_eq!(snap.events[0].midi_data, original);
}

#[test]
fn shorter_messages_are_zero_padded() {
    let ev1 = make_midi_event(&[0xF8]);
    assert_eq!(ev1.midi_data, [0xF8, 0, 0]);
    let ev2 = make_midi_event(&[0xC0, 5]);
    assert_eq!(ev2.midi_data, [0xC0, 5, 0]);
    assert!(ev1.kind == EventKind::Midi);
    assert_eq!(ev1.byte_size, MIDI_EVENT_BYTE_SIZE);
    assert_eq!(ev1.delta_frames, 0);
}

#[test]
fn pad_zeroes_copies_front_and_zeroes_rest() {
    let two_to_three: [u8; 3] = pad_zeroes(&[1u8, 2]);
    assert_eq!(two_to_three, [1, 2, 0]);
    let same_width: [u8; 3] = pad_zeroes(&[9u8, 8, 7]);
    assert_eq!(same_width, [9, 8, 7]);
    let empty_to_four: [u8; 4] = pad_zeroes(&[]);
    assert_eq!(empty_to_four, [0, 0, 0, 0]);
}

#[test]
fn snapshot_leaves_buffer_unchanged() {
    let mut buf = MidiInputBuffer::new();
    capture_midi_in(&mut buf, 1, &[0x90, 60, 100]);
    let first = buf.get_events();
    let second = buf.get_events();
    assert_eq!(first.num_events, 1);
    assert_eq!(second.num_events, 1);
    assert_eq!(buf.len(), 1);
    assert_eq!(second.events[0].midi_data, [0x90, 60, 100]);
}
