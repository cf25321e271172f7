//! The process-wide shared event buffer: the sequential buffer guarded by
//! one exclusive lock, used for both append and drain. The driver's
//! callback thread appends through [`SharedEventBuffer::capture`]; the
//! dispatcher's loop takes a snapshot while holding the lock, delivers it,
//! and only then clears and releases. Because append and snapshot/clear
//! contend for the same exclusive lock, an append that arrives while a
//! snapshot is held is delayed until the guard is released, and its event
//! appears only in the next snapshot: the plugin never observes a torn
//! batch.

use vstd::prelude::*;
use vstd::rwlock::{RwLock, RwLockPredicate, WriteHandle};

use crate::buffer::{capture_midi_in, EventSnapshot, MidiInputBuffer};
use crate::events::{BufferedEvent, EventKind, MIDI_EVENT_BYTE_SIZE};

verus! {

/// A record as the capture callback produces it: tagged MIDI, with the
/// declared foreign record size and no delta-frame offset.
pub open spec fn is_midi_record(ev: BufferedEvent) -> bool {
    &&& ev.kind == EventKind::Midi
    &&& ev.byte_size == MIDI_EVENT_BYTE_SIZE
    &&& ev.delta_frames == 0
}

/// The lock's invariant: every buffered record is a well-formed MIDI
/// capture record.
pub struct MidiBufferPred {}

impl RwLockPredicate<MidiInputBuffer> for MidiBufferPred {
    open spec fn inv(self, v: MidiInputBuffer) -> bool {
        forall|i: int| 0 <= i < v@.len() ==> is_midi_record(v@[i])
    }
}

/// The shared buffer: created once at process start and then handed by
/// shared reference to both the capture installer and the dispatcher.
pub struct SharedEventBuffer {
    lock: RwLock<MidiInputBuffer, MidiBufferPred>,
}

impl SharedEventBuffer {
    /// A fresh, empty shared buffer.
    pub fn new() -> (s: Self) {
        let buf = MidiInputBuffer::new();
        SharedEventBuffer { lock: RwLock::new(buf, Ghost(MidiBufferPred {})) }
    }

    /// The capture callback's entry: acquires the exclusive lock, appends
    /// the captured record, releases. Blocks only while a snapshot guard
    /// or another append holds the lock.
    pub fn capture(&self, stamp: u64, message: &[u8])
        requires
            1 <= message@.len() <= 3,
    {
        let (mut buf, handle) = self.lock.acquire_write();
        capture_midi_in(&mut buf, stamp, message);
        handle.release_write(buf);
    }

    /// Acquires the exclusive lock and returns a snapshot of everything
    /// buffered so far, in arrival order, together with the buffer's
    /// contents and the guard that keeps the lock held. The snapshot stays
    /// coherent for as long as the guard is: no append can interleave.
    /// Pass both to [`clear_and_release`] once the batch is delivered.
    pub fn snapshot_and_hold<'a>(&'a self) -> (r: (
        EventSnapshot,
        MidiInputBuffer,
        WriteHandle<'a, MidiInputBuffer, MidiBufferPred>,
    ))
        ensures
            r.0.wf(),
            r.0.events@ == r.1@,
            r.0.num_events == r.1@.len(),
            forall|i: int| 0 <= i < r.1@.len() ==> is_midi_record(r.1@[i]),
    {
        let (buf, handle) = self.lock.acquire_write();
        let snap = buf.get_events();
        (snap, buf, handle)
    }
}

/// The dispatcher's clear step: truncates the buffer to empty, discarding
/// the delivered batch, and only then releases the lock guard taken by
/// [`SharedEventBuffer::snapshot_and_hold`]. The next snapshot therefore
/// holds exactly the events appended after this release.
pub fn clear_and_release(
    buf: MidiInputBuffer,
    handle: WriteHandle<'_, MidiInputBuffer, MidiBufferPred>,
) {
    let mut buf = buf;
    buf.clear_midi_buffer();
    handle.release_write(buf);
}

} // verus!
