//! The event buffer: an ordered, append-only-until-cleared sequence of
//! buffered MIDI events, together with the snapshot that the dispatcher
//! hands to the plugin once per processing cycle.

use vstd::prelude::*;

use crate::events::{is_capture_of, BufferedEvent};

verus! {

/// The shared event buffer's contents: events in arrival order. The
/// sequence is only ever appended to or fully cleared, never partially
/// drained.
pub struct MidiInputBuffer {
    events: Vec<BufferedEvent>,
}

impl View for MidiInputBuffer {
    type V = Seq<BufferedEvent>;

    closed spec fn view(&self) -> Seq<BufferedEvent> {
        self.events@
    }
}

/// A point-in-time copy of everything the buffer held when it was taken:
/// a count plus the events in arrival order. The dispatcher lays this out
/// as the foreign event array at the plugin call boundary.
pub struct EventSnapshot {
    pub num_events: usize,
    pub events: Vec<BufferedEvent>,
}

impl EventSnapshot {
    /// The count field always matches the number of events carried.
    pub open spec fn wf(&self) -> bool {
        self.num_events == self.events@.len()
    }
}

impl MidiInputBuffer {
    /// An empty buffer.
    pub fn new() -> (r: Self)
        ensures
            r@ == Seq::<BufferedEvent>::empty(),
    {
        MidiInputBuffer { events: Vec::new() }
    }

    /// Number of events currently buffered.
    pub fn len(&self) -> (n: usize)
        ensures
            n == self@.len(),
    {
        self.events.len()
    }

    /// Appends one event at the end; every earlier event keeps its place.
    pub fn append(&mut self, ev: BufferedEvent)
        ensures
            final(self)@ == old(self)@.push(ev),
    {
        self.events.push(ev);
    }

    /// Returns a snapshot of the current contents: exactly the buffered
    /// events, in arrival order, with a matching count. The buffer itself
    /// is unchanged.
    pub fn get_events(&self) -> (s: EventSnapshot)
        ensures
            s.wf(),
            s.events@ == self@,
            s.num_events == self@.len(),
    {
        let mut copy: Vec<BufferedEvent> = Vec::new();
        let mut i: usize = 0;
        while i < self.events.len()
            invariant
                i <= self@.len(),
                copy@ =~= self@.subrange(0, i as int),
            decreases self@.len() - i,
        {
            copy.push(self.events[i]);
            i += 1;
        }
        proof {
            assert(copy@ =~= self@);
        }
        let n = copy.len();
        EventSnapshot { num_events: n, events: copy }
    }

    /// Truncates the buffer to empty and releases its backing capacity.
    pub fn clear_midi_buffer(&mut self)
        ensures
            final(self)@ == Seq::<BufferedEvent>::empty(),
    {
        self.events = Vec::new();
    }
}

/// The capture callback's work: converts an inbound raw MIDI message of 1
/// to 3 bytes into a buffered record (zero-padded payload, zero delta
/// frames) and appends it. The driver's timestamp is accepted but not used
/// for scheduling: the record's delta-frame offset is always 0.
pub fn capture_midi_in(buf: &mut MidiInputBuffer, _stamp: u64, message: &[u8])
    requires
        1 <= message@.len() <= 3,
    ensures
        final(buf)@.len() == old(buf)@.len() + 1,
        final(buf)@ == old(buf)@.push(final(buf)@.last()),
        is_capture_of(final(buf)@.last(), message@),
{
    let ev = crate::events::make_midi_event(message);
    buf.append(ev);
}

} // verus!
