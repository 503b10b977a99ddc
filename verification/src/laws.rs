//! The behavioural laws of the node, proved once and for all over the
//! ghost model.  Each law's doc comment states it in words; each is stated
//! over the same transition functions the executable code is proved to
//! follow, so it holds of every run of the library.

use vstd::prelude::*;
use crate::error::FlowError;
use crate::model::{
    forwarded_buffer, lemma_begin_next_frame, lemma_buffer_next_frame, lemma_idx_of,
    lemma_remove_next_frame, lemma_with_rec, RecordModel, SelectorModel,
};
use crate::stream::{buffers_of, Buffer, OutputItem, StickyItem};

verus! {

/// The buffer projection distributes over concatenation of output
/// sequences.
pub proof fn lemma_buffers_of_concat(a: Seq<OutputItem>, b: Seq<OutputItem>)
    ensures
        buffers_of(a + b) == buffers_of(a) + buffers_of(b),
    decreases a.len(),
{
    if a.len() == 0 {
        assert(a + b =~= b);
        assert(buffers_of(a) + buffers_of(b) =~= buffers_of(b));
    } else {
        assert((a + b).drop_first() =~= a.drop_first() + b);
        lemma_buffers_of_concat(a.drop_first(), b);
        assert((a + b)[0] == a[0]);
        match a[0] {
            OutputItem::Buffer(x) => {
                assert(buffers_of(a + b) =~= buffers_of(a) + buffers_of(b));
            },
            _ => {
                assert(buffers_of(a + b) =~= buffers_of(a) + buffers_of(b));
            },
        }
    }
}

/// A sticky replay contains no buffers.
pub proof fn lemma_buffers_of_stickies(items: Seq<StickyItem>)
    ensures
        buffers_of(items.map_values(|s: StickyItem| OutputItem::Sticky(s))) == Seq::<
            Buffer,
        >::empty(),
    decreases items.len(),
{
    let mapped = items.map_values(|s: StickyItem| OutputItem::Sticky(s));
    if items.len() == 0 {
        assert(buffers_of(mapped) =~= Seq::<Buffer>::empty());
    } else {
        lemma_buffers_of_stickies(items.drop_first());
        assert(mapped.drop_first() =~= items.drop_first().map_values(
            |s: StickyItem| OutputItem::Sticky(s),
        ));
        assert(buffers_of(mapped) == buffers_of(mapped.drop_first()));
    }
}

/// One cycle on the active input forwards exactly its buffer — marked
/// discontinuous when a switch is pending — after any sticky replay.
pub proof fn lemma_buffer_out_buffers(s: SelectorModel, id: u32, b: Buffer)
    requires
        s.wf(),
        s.has_input(id),
        s.active_input == Option::Some(id),
    ensures
        buffers_of(s.buffer_out(id, b)) == seq![
            if s.just_switched && !b.discont {
                Buffer { discont: true, ..b }
            } else {
                b
            },
        ],
{
    let fb = if s.just_switched && !b.discont {
        Buffer { discont: true, ..b }
    } else {
        b
    };
    let replay = s.begin_out(id);
    assert(s.buffer_out(id, b) =~= replay + seq![OutputItem::Buffer(fb)]);
    lemma_buffers_of_concat(replay, seq![OutputItem::Buffer(fb)]);
    if s.replay_owed(id) {
        lemma_buffers_of_stickies(s.rec(id).stickies);
    } else {
        assert(buffers_of(replay) =~= Seq::<Buffer>::empty());
    }
    let single = seq![OutputItem::Buffer(fb)];
    assert(single.drop_first() =~= Seq::<OutputItem>::empty());
    assert(buffers_of(single.drop_first()) == Seq::<Buffer>::empty());
    assert(buffers_of(single) =~= seq![fb]);
    assert(buffers_of(s.buffer_out(id, b)) =~= seq![fb]);
}

/// For any batch of buffers on the active input, the output carries the
/// very same buffers in the same order: none is dropped, none reordered,
/// and none altered — except that the first one is marked discontinuous
/// while a switch is pending.  (That no buffer is forwarded before its
/// mapped target running time is the deadline clause of `begin_job`: the
/// cycle hands the runtime the exact running time to suspend until.)
pub proof fn lemma_active_forwards_in_order(s: SelectorModel, id: u32, bs: Seq<Buffer>)
    requires
        s.wf(),
        s.has_input(id),
        s.active_input == Option::Some(id),
    ensures
        buffers_of(s.list_out(id, bs)).len() == bs.len(),
        bs.len() > 0 ==> buffers_of(s.list_out(id, bs))[0] == (if s.just_switched
            && !bs[0].discont {
            Buffer { discont: true, ..bs[0] }
        } else {
            bs[0]
        }),
        forall|i: int| 1 <= i < bs.len() ==> buffers_of(s.list_out(id, bs))[i] == bs[i],
    decreases bs.len(),
{
    if bs.len() == 0 {
        assert(buffers_of(s.list_out(id, bs)) =~= Seq::<Buffer>::empty());
    } else {
        let s1 = s.buffer_next(id);
        lemma_buffer_next_frame(s, id);
        assert(!s1.just_switched);
        lemma_active_forwards_in_order(s1, id, bs.drop_first());
        lemma_buffers_of_concat(s.buffer_out(id, bs[0]), s1.list_out(id, bs.drop_first()));
        lemma_buffer_out_buffers(s, id, bs[0]);
        let head = buffers_of(s.buffer_out(id, bs[0]));
        let tail = buffers_of(s1.list_out(id, bs.drop_first()));
        assert(buffers_of(s.list_out(id, bs)) == head + tail);
        assert(head.len() == 1);
        assert forall|i: int| 1 <= i < bs.len() implies buffers_of(s.list_out(id, bs))[i]
            == bs[i] by {
            assert((head + tail)[i] == tail[i - 1]);
            if i == 1 {
                assert(bs.drop_first().len() > 0);
                assert(tail[0] == bs.drop_first()[0]);
            } else {
                assert(tail[i - 1] == bs.drop_first()[i - 1]);
            }
            assert(bs.drop_first()[i - 1] == bs[i]);
        }
    }
}

/// Buffers arriving on an input that is not the active one are never
/// forwarded, regardless of their number: the whole batch emits nothing.
pub proof fn lemma_inactive_forwards_nothing(s: SelectorModel, id: u32, bs: Seq<Buffer>)
    requires
        s.wf(),
        s.has_input(id),
        s.active_input != Option::Some(id),
    ensures
        s.list_out(id, bs) == Seq::<OutputItem>::empty(),
    decreases bs.len(),
{
    if bs.len() == 0 {
    } else {
        assert(s.buffer_out(id, bs[0]) =~= Seq::<OutputItem>::empty());
        lemma_buffer_next_frame(s, id);
        lemma_inactive_forwards_nothing(s.buffer_next(id), id, bs.drop_first());
        assert(s.list_out(id, bs) =~= Seq::<OutputItem>::empty());
    }
}

/// While a switch is pending on the active input, the very next buffer
/// cycle replays all the sticky items accumulated on that input, in
/// announce order, and then forwards the buffer carrying a discontinuity
/// marker — whether or not it carried one already.
pub proof fn lemma_switch_replays_and_marks(s: SelectorModel, id: u32, b: Buffer)
    requires
        s.wf(),
        s.has_input(id),
        s.active_input == Option::Some(id),
        s.just_switched,
    ensures
        s.buffer_out(id, b) == s.rec(id).stickies.map_values(
            |x: StickyItem| OutputItem::Sticky(x),
        ).push(OutputItem::Buffer((Buffer { discont: true, ..b }))),
{
    assert(s.replay_owed(id));
    if b.discont {
        assert(b == (Buffer { discont: true, ..b }));
    }
}

/// Selecting is absorbing: issuing the same selection twice in a row
/// leaves exactly the state of issuing it once, so a repeated `set_active`
/// with the already-active input forces nothing further.  (Re-selecting it
/// only later, after a buffer has consumed the switch flag, sets the flag
/// anew: the selection operation is deliberately permissive and
/// unconditional.)
pub proof fn lemma_set_active_idempotent(s: SelectorModel, pad: Option<u32>)
    ensures
        s.set_active_next(pad).set_active_next(pad) == s.set_active_next(pad),
{
    match pad {
        Option::None => {},
        Option::Some(id) => {
            let s1 = s.set_active_next(Option::Some(id));
            assert(s1.inputs == s.inputs);
            if s.has_input(id) {
                assert(s1.has_input(id));
            } else {
                assert(!s1.has_input(id));
            }
        },
    }
}

/// Flush-start between the two halves of a buffer cycle cancels its wait:
/// the cycle then reports flushing and the buffer — whose wait had not
/// elapsed — is never forwarded.  (The flush itself is handed downstream
/// immediately by `handle_immediate_event`, before the wait is even
/// touched.)
pub proof fn lemma_flush_cancels_wait(s: SelectorModel, id: u32, b: Buffer, now: Option<u64>)
    requires
        s.wf(),
        s.has_input(id),
        s.rec(id).last_segment is Some,
    ensures
        ({
            let job = s.begin_job(id, b, now);
            let interrupted = s.begin_next(id).flush_next(id);
            &&& job.cancellable
            &&& interrupted.finish_cancelled(job)
            &&& interrupted.finish_result(job) == Result::<(), FlowError>::Err(
                FlowError::Flushing,
            )
            &&& interrupted.finish_out(job) == Seq::<OutputItem>::empty()
        }),
{
    let job = s.begin_job(id, b, now);
    let s1 = s.begin_next(id);
    lemma_begin_next_frame(s, id);
    assert(s1.rec(id).wait_pending);
    lemma_idx_of(s1, id);
    assert(crate::model::rec_wf(s1.rec(id))) by {
        assert(s1.inputs[s1.idx_of(id)] == s1.rec(id));
    }
    let r1 = RecordModel { wait_pending: false, wait_cancelled: true, ..s1.rec(id) };
    lemma_with_rec(s1, id, r1);
    let s2 = s1.flush_next(id);
    assert(s2.rec(id).wait_cancelled);
    assert(s2.finish_out(job) =~= Seq::<OutputItem>::empty());
}

/// After the active input is removed, the selection is not reassigned, so
/// any batch of buffers on any remaining input is dropped entirely:
/// forwarding does not resume until a new selection is made.
pub proof fn lemma_remove_active_drops_rest(
    s: SelectorModel,
    removed: u32,
    other: u32,
    bs: Seq<Buffer>,
)
    requires
        s.wf(),
        s.has_input(removed),
        s.has_input(other),
        other != removed,
        s.active_input == Option::Some(removed),
    ensures
        s.remove_next(removed).list_out(other, bs) == Seq::<OutputItem>::empty(),
{
    lemma_remove_next_frame(s, removed);
    let s1 = s.remove_next(removed);
    assert(s1.has_input(other));
    assert(s1.active_input != Option::Some(other));
    lemma_inactive_forwards_nothing(s1, other, bs);
}

} // verus!
