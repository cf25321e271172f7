//! Buffered MIDI event records: the fixed-layout record that a captured
//! 1-to-3-byte MIDI message is converted into before it is appended to the
//! shared event buffer.

use vstd::prelude::*;

verus! {

/// Width in bytes of the fixed payload buffer of a buffered event.
/// A raw MIDI message of 1 to 3 bytes is zero-padded to this width.
pub const MIDI_PAYLOAD_WIDTH: usize = 3;

/// Declared size in bytes of the foreign event record that a
/// `BufferedEvent` is laid out as at the dispatch boundary.
pub const MIDI_EVENT_BYTE_SIZE: i32 = 32;

/// Type tag of a buffered event record. Every event this bridge captures
/// is a MIDI message.
#[derive(Clone, Copy, PartialEq, Eq, Structural, Debug)]
pub enum EventKind {
    Midi,
}

/// One captured MIDI message: a type tag, the declared byte size of the
/// foreign record, a delta-frame offset (always 0 here: no look-ahead
/// scheduling), and the raw payload zero-padded to the fixed width.
/// Immutable once appended to the buffer.
#[derive(Clone, Copy)]
pub struct BufferedEvent {
    pub kind: EventKind,
    pub byte_size: i32,
    pub delta_frames: i32,
    pub midi_data: [u8; 3],
}

/// The payload of `msg` zero-padded to the fixed width of 3 bytes.
pub open spec fn padded3(msg: Seq<u8>) -> Seq<u8> {
    Seq::new(3, |i: int| if i < msg.len() { msg[i] } else { 0u8 })
}

/// `ev` is exactly the record that capturing the raw message `msg` produces.
pub open spec fn is_capture_of(ev: BufferedEvent, msg: Seq<u8>) -> bool {
    &&& ev.kind == EventKind::Midi
    &&& ev.byte_size == MIDI_EVENT_BYTE_SIZE
    &&& ev.delta_frames == 0
    &&& ev.midi_data@ == padded3(msg)
}

/// Copies `arr` into the front of a zeroed buffer of width `B`.
pub fn pad_zeroes<const A: usize, const B: usize>(arr: &[u8; A]) -> (r: [u8; B])
    requires
        B >= A,
    ensures
        forall|i: int| 0 <= i < A ==> r@[i] == arr@[i],
        forall|i: int| A <= i < B ==> r@[i] == 0u8,
{
    let mut b: [u8; B] = [0; B];
    let mut i: usize = 0;
    while i < A
        invariant
            i <= A <= B,
            forall|j: int| 0 <= j < i ==> b@[j] == arr@[j],
            forall|j: int| i <= j < B ==> b@[j] == 0u8,
        decreases A - i,
    {
        b[i] = arr[i];
        i += 1;
    }
    b
}

/// Converts a raw 1-to-3-byte MIDI message into the fixed-layout buffered
/// record, zero-padding the payload to the full width.
pub fn make_midi_event(message: &[u8]) -> (ev: BufferedEvent)
    requires
        1 <= message@.len() <= 3,
    ensures
        is_capture_of(ev, message@),
{
    let len = message.len();
    let b0 = message[0];
    let b1 = if len > 1 {
        message[1]
    } else {
        0
    };
    let b2 = if len > 2 {
        message[2]
    } else {
        0
    };
    let ev = BufferedEvent {
        kind: EventKind::Midi,
        byte_size: MIDI_EVENT_BYTE_SIZE,
        delta_frames: 0,
        midi_data: [b0, b1, b2],
    };
    proof {
        assert(ev.midi_data@ =~= padded3(message@));
    }
    ev
}

} // verus!
