//! The ordering and delivery guarantees of the event buffer, stated and
//! proved over the same views that the buffer's contracts use.

use vstd::prelude::*;

use crate::events::{is_capture_of, padded3, BufferedEvent};

verus! {

/// The buffer's contents after the events of `evs` have been appended to
/// a buffer holding `base`, one at a time and in order, exactly as
/// repeated `append` calls leave it.
pub open spec fn appended(base: Seq<BufferedEvent>, evs: Seq<BufferedEvent>) -> Seq<
    BufferedEvent,
>
    decreases evs.len(),
{
    if evs.len() == 0 {
        base
    } else {
        appended(base.push(evs[0]), evs.drop_first())
    }
}

/// Appending events one at a time concatenates them, in order, after
/// whatever the buffer already held.
pub proof fn lemma_appended_is_concat(base: Seq<BufferedEvent>, evs: Seq<BufferedEvent>)
    ensures
        appended(base, evs) == base + evs,
    decreases evs.len(),
{
    if evs.len() == 0 {
        assert(appended(base, evs) =~= base + evs);
    } else {
        lemma_appended_is_concat(base.push(evs[0]), evs.drop_first());
        assert(base.push(evs[0]) + evs.drop_first() =~= base + evs);
    }
}

/// Law: between two consecutive clears, a buffer that starts empty and
/// receives N appended events holds, and a snapshot taken immediately
/// after therefore contains, exactly those N events in arrival order.
/// Equally: after a clear, the next snapshot reflects only the events
/// appended after the clear — none of the cleared events resurface.
pub proof fn lemma_snapshot_after_appends(evs: Seq<BufferedEvent>)
    ensures
        appended(Seq::<BufferedEvent>::empty(), evs) == evs,
        appended(Seq::<BufferedEvent>::empty(), evs).len() == evs.len(),
        forall|i: int|
            0 <= i < evs.len() ==> appended(Seq::<BufferedEvent>::empty(), evs)[i] == evs[i],
{
    lemma_appended_is_concat(Seq::<BufferedEvent>::empty(), evs);
    assert(Seq::<BufferedEvent>::empty() + evs =~= evs);
}

/// Law: a full-width (3-byte) MIDI message survives capture unchanged —
/// zero-padding a message already at the fixed width is the identity.
pub proof fn lemma_padding_full_width_identity(msg: Seq<u8>)
    requires
        msg.len() == 3,
    ensures
        padded3(msg) == msg,
{
    assert(padded3(msg) =~= msg);
}

/// Law (round trip): appending the record captured from a 3-byte message
/// to any buffer leaves the new last event carrying exactly the original
/// payload bytes, in their original order; a snapshot taken then returns
/// them untouched.
pub proof fn lemma_capture_round_trip(
    before: Seq<BufferedEvent>,
    ev: BufferedEvent,
    msg: Seq<u8>,
)
    requires
        msg.len() == 3,
        is_capture_of(ev, msg),
    ensures
        before.push(ev).last().midi_data@ == msg,
        before.push(ev).len() == before.len() + 1,
{
    lemma_padding_full_width_identity(msg);
}

} // verus!
