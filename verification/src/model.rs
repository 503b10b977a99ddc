//! The mathematical model of the node.  A `SelectorModel` is the ghost view
//! of the whole selector — switch state, registry and per-input records —
//! and every operation of the node has a transition function here saying
//! exactly what it does to that view and what it emits.  The executable
//! code in `selector` ensures it follows these functions; the laws in
//! `laws` are proved about them.

use vstd::prelude::*;
use crate::error::FlowError;
use crate::stream::{Buffer, OutputItem, SerializedEvent, StickyItem};
use crate::timing::{spec_wait_deadline, TimeSegment};

verus! {

/// The ghost view of one connected input: its identity, the last time-base
/// mapping announced on it, whether sticky metadata must be (re-)sent with
/// the next forwarded buffer, the sticky items accumulated so far in
/// announce order, and the state of its cancellable wait.
pub ghost struct RecordModel {
    pub id: u32,
    pub last_segment: Option<TimeSegment>,
    pub pending_sticky_resend: bool,
    pub stickies: Seq<StickyItem>,
    pub wait_pending: bool,
    pub wait_cancelled: bool,
}

/// The ghost view of the whole node: which input is active, whether a
/// switch just occurred and has not yet been consumed by a forwarded
/// buffer, the serial counter naming new inputs, and the records of the
/// connected inputs in creation order.
pub ghost struct SelectorModel {
    pub active_input: Option<u32>,
    pub just_switched: bool,
    pub serial: u32,
    pub inputs: Seq<RecordModel>,
}

/// Validity of one record: a segment, once announced, is a meaningful
/// mapping (its rates are positive).
pub open spec fn rec_wf(r: RecordModel) -> bool {
    r.last_segment matches Option::Some(s) ==> s.wf()
}

/// The record a freshly connected input starts with: no segment yet, sticky
/// resend owed (everything must be announced once), nothing accumulated, no
/// wait.
pub open spec fn fresh_record(id: u32) -> RecordModel {
    RecordModel {
        id: id,
        last_segment: Option::None,
        pending_sticky_resend: true,
        stickies: Seq::empty(),
        wait_pending: false,
        wait_cancelled: false,
    }
}

impl SelectorModel {
    /// The state the node starts in, and returns to when unprepared: no
    /// input connected or active, and a switch pending so that the very
    /// first forwarded buffer carries a discontinuity marker.
    pub open spec fn init() -> SelectorModel {
        SelectorModel {
            active_input: Option::None,
            just_switched: true,
            serial: 0,
            inputs: Seq::empty(),
        }
    }

    /// Well-formedness: input identities are unique, all were drawn from
    /// the serial counter, and every announced segment is a meaningful
    /// mapping.
    pub open spec fn wf(self) -> bool {
        &&& forall|i: int, j: int|
            0 <= i < j < self.inputs.len() ==> self.inputs[i].id != self.inputs[j].id
        &&& forall|i: int| 0 <= i < self.inputs.len() ==> #[trigger] self.inputs[i].id < self.serial
        &&& forall|i: int| 0 <= i < self.inputs.len() ==> rec_wf(#[trigger] self.inputs[i])
    }

    pub open spec fn has_input(self, id: u32) -> bool {
        exists|i: int| 0 <= i < self.inputs.len() && #[trigger] self.inputs[i].id == id
    }

    /// The position of input `id` in the registry.
    pub open spec fn idx_of(self, id: u32) -> int {
        choose|i: int| 0 <= i < self.inputs.len() && #[trigger] self.inputs[i].id == id
    }

    /// The record of input `id`.
    pub open spec fn rec(self, id: u32) -> RecordModel {
        self.inputs[self.idx_of(id)]
    }

    pub open spec fn is_active(self, id: u32) -> bool {
        self.active_input == Option::Some(id)
    }

    /// Whether the next buffer forwarded on input `id` owes a replay of its
    /// sticky metadata: only an active input replays, and it does so when
    /// its metadata changed or a switch just occurred.
    pub open spec fn replay_owed(self, id: u32) -> bool {
        self.is_active(id) && (self.rec(id).pending_sticky_resend || self.just_switched)
    }

    /// A registry with the record of input `id` replaced.
    pub open spec fn with_rec(self, id: u32, r: RecordModel) -> SelectorModel {
        SelectorModel { inputs: self.inputs.update(self.idx_of(id), r), ..self }
    }

    // ---- selection -----------------------------------------------------

    /// Selecting an active input.  A connected identity becomes active and
    /// marks the switch; an identity that names no connected input leaves
    /// the selection unchanged; selecting none deactivates forwarding
    /// entirely.
    pub open spec fn set_active_next(self, pad: Option<u32>) -> SelectorModel {
        match pad {
            Option::None => (SelectorModel { active_input: Option::None, ..self }),
            Option::Some(id) => if self.has_input(id) {
                SelectorModel { active_input: Option::Some(id), just_switched: true, ..self }
            } else {
                self
            },
        }
    }

    // ---- lifecycle -----------------------------------------------------

    /// The identity `add_input` hands out next.
    pub open spec fn add_id(self) -> u32 {
        self.serial
    }

    /// Connecting a new input: it takes the next serial as its identity,
    /// starts with a fresh record, and — when no input was active — becomes
    /// the active one with the switch marked.
    pub open spec fn add_next(self) -> SelectorModel {
        SelectorModel {
            active_input: if self.active_input is None {
                Option::Some(self.serial)
            } else {
                self.active_input
            },
            just_switched: if self.active_input is None {
                true
            } else {
                self.just_switched
            },
            serial: (self.serial + 1) as u32,
            inputs: self.inputs.push(fresh_record(self.serial)),
        }
    }

    /// Removing an input discards its record and nothing else: in
    /// particular the selection is not reassigned, so removing the active
    /// input leaves every remaining input inactive until a new selection is
    /// made.
    pub open spec fn remove_next(self, id: u32) -> SelectorModel {
        SelectorModel { inputs: self.inputs.remove(self.idx_of(id)), ..self }
    }

    /// Unpreparing the node resets the switch state to its default and
    /// keeps the registry; inputs are released separately.
    pub open spec fn reset_next(self) -> SelectorModel {
        SelectorModel { active_input: Option::None, just_switched: true, ..self }
    }

    // ---- events --------------------------------------------------------

    /// A serialized event on input `id`: a segment replaces the input's
    /// time-base mapping, a sticky item is accumulated in announce order;
    /// both are persistent and so mark the sticky resend owed.  Anything
    /// else is accepted and dropped.
    pub open spec fn serialized_next(self, id: u32, ev: SerializedEvent) -> SelectorModel {
        match ev {
            SerializedEvent::Segment(seg) => self.with_rec(
                id,
                RecordModel {
                    last_segment: Option::Some(seg),
                    pending_sticky_resend: true,
                    ..self.rec(id)
                },
            ),
            SerializedEvent::Sticky(item) => self.with_rec(
                id,
                RecordModel {
                    stickies: self.rec(id).stickies.push(item),
                    pending_sticky_resend: true,
                    ..self.rec(id)
                },
            ),
            SerializedEvent::Other => self,
        }
    }

    /// Flush-start on input `id` cancels its outstanding wait, if one is
    /// pending; the flush itself is propagated downstream at once.
    pub open spec fn flush_next(self, id: u32) -> SelectorModel {
        if self.rec(id).wait_pending {
            self.with_rec(
                id,
                RecordModel { wait_pending: false, wait_cancelled: true, ..self.rec(id) },
            )
        } else {
            self
        }
    }

    // ---- buffers -------------------------------------------------------

    /// The running time buffer `b` is due at on input `id`: its timestamp
    /// mapped through the input's last segment, if one is known.
    pub open spec fn buffer_target(self, id: u32, b: Buffer) -> Option<u64> {
        match self.rec(id).last_segment {
            Option::None => Option::None,
            Option::Some(seg) => seg.spec_running_time(b.pts),
        }
    }

    /// What the first half of a buffer cycle decides, snapshot under one
    /// critical section: whether this input is active, whether a switch
    /// just occurred, whether a cancellable wait was registered (one is
    /// whenever a segment is known), and the deadline the task must
    /// suspend until, if the target is still in the future.
    pub open spec fn begin_job(self, id: u32, b: Buffer, now: Option<u64>) -> BufferJob {
        BufferJob {
            input: id,
            buffer: b,
            is_active: self.is_active(id),
            switched: self.just_switched,
            cancellable: self.rec(id).last_segment is Some,
            deadline: spec_wait_deadline(now, self.buffer_target(id, b)),
        }
    }

    /// The sticky items replayed ahead of a buffer: the input's accumulated
    /// items in announce order when a replay is owed, nothing otherwise.
    pub open spec fn begin_out(self, id: u32) -> Seq<OutputItem> {
        if self.replay_owed(id) {
            self.rec(id).stickies.map_values(|s: StickyItem| OutputItem::Sticky(s))
        } else {
            Seq::empty()
        }
    }

    /// The state change of the first half of a buffer cycle: a new wait
    /// replaces any previous one on this input, and a replay, once
    /// collected, consumes both the resend flag and the switch flag.
    pub open spec fn begin_next(self, id: u32) -> SelectorModel {
        let r1 = RecordModel {
            wait_pending: self.rec(id).last_segment is Some,
            wait_cancelled: false,
            pending_sticky_resend: if self.replay_owed(id) {
                false
            } else {
                self.rec(id).pending_sticky_resend
            },
            ..self.rec(id)
        };
        SelectorModel {
            just_switched: if self.replay_owed(id) {
                false
            } else {
                self.just_switched
            },
            ..self.with_rec(id, r1)
        }
    }

    /// Whether the wait of `job` was cancelled: only a registered wait can
    /// be, and it is exactly when flush-start was handled on this input
    /// between the two halves of the cycle.
    pub open spec fn finish_cancelled(self, job: BufferJob) -> bool {
        job.cancellable && self.rec(job.input).wait_cancelled
    }

    /// What the second half reports: a cancelled wait abandons the cycle as
    /// `Flushing`; everything else succeeds, forwarding or not.
    pub open spec fn finish_result(self, job: BufferJob) -> Result<(), FlowError> {
        if self.finish_cancelled(job) {
            Result::Err(FlowError::Flushing)
        } else {
            Result::Ok(())
        }
    }

    /// What the second half forwards: nothing when cancelled or inactive;
    /// otherwise the buffer, given a discontinuity marker if a switch just
    /// occurred and it did not already carry one.
    pub open spec fn finish_out(self, job: BufferJob) -> Seq<OutputItem> {
        if self.finish_cancelled(job) || !job.is_active {
            Seq::empty()
        } else {
            seq![OutputItem::Buffer(forwarded_buffer(job))]
        }
    }

    /// The state change of the second half: the wait is over, whatever
    /// became of it.
    pub open spec fn finish_next(self, id: u32) -> SelectorModel {
        self.with_rec(
            id,
            RecordModel { wait_pending: false, wait_cancelled: false, ..self.rec(id) },
        )
    }

    /// A whole undisturbed buffer cycle on input `id`: both halves, with no
    /// flush in between.
    pub open spec fn buffer_next(self, id: u32) -> SelectorModel {
        self.begin_next(id).finish_next(id)
    }

    /// What an undisturbed buffer cycle emits: nothing on an inactive
    /// input; on the active input the owed sticky replay, then the buffer,
    /// marked discontinuous if a switch just occurred.
    pub open spec fn buffer_out(self, id: u32, b: Buffer) -> Seq<OutputItem> {
        if !self.is_active(id) {
            Seq::empty()
        } else {
            self.begin_out(id).push(
                OutputItem::Buffer(
                    if self.just_switched && !b.discont {
                        Buffer { discont: true, ..b }
                    } else {
                        b
                    },
                ),
            )
        }
    }

    /// The state after a batch of undisturbed buffer cycles.
    pub open spec fn list_next(self, id: u32, bs: Seq<Buffer>) -> SelectorModel
        decreases bs.len(),
    {
        if bs.len() == 0 {
            self
        } else {
            self.buffer_next(id).list_next(id, bs.drop_first())
        }
    }

    /// What a batch of undisturbed buffer cycles emits, in order.
    pub open spec fn list_out(self, id: u32, bs: Seq<Buffer>) -> Seq<OutputItem>
        decreases bs.len(),
    {
        if bs.len() == 0 {
            Seq::empty()
        } else {
            self.buffer_out(id, bs[0]) + self.buffer_next(id).list_out(id, bs.drop_first())
        }
    }
}

/// The buffer `job` forwards: the discontinuity marker is set when a switch
/// just occurred and the buffer did not already carry one.
pub open spec fn forwarded_buffer(job: BufferJob) -> Buffer {
    if job.switched && !job.buffer.discont {
        Buffer { discont: true, ..job.buffer }
    } else {
        job.buffer
    }
}

/// The snapshot a buffer cycle works from, taken by `begin_buffer` under
/// one critical section and consumed by `finish_buffer` after the wait.
#[derive(Clone, Copy, Debug, PartialEq, Eq)]
pub struct BufferJob {
    pub input: u32,
    pub buffer: Buffer,
    pub is_active: bool,
    pub switched: bool,
    pub cancellable: bool,
    pub deadline: Option<u64>,
}

// ---- basic facts about the model --------------------------------------

/// The position `idx_of` names is real: it lies in the registry and holds
/// the identity looked up, and under well-formedness it is the only one.
pub proof fn lemma_idx_of(s: SelectorModel, id: u32)
    requires
        s.has_input(id),
    ensures
        0 <= s.idx_of(id) < s.inputs.len(),
        s.inputs[s.idx_of(id)].id == id,
        s.rec(id).id == id,
        s.wf() ==> forall|j: int|
            0 <= j < s.inputs.len() && #[trigger] s.inputs[j].id == id ==> j == s.idx_of(id),
{
    let i = choose|i: int| 0 <= i < s.inputs.len() && #[trigger] s.inputs[i].id == id;
    assert(s.inputs[i].id == id);
    if s.wf() {
        assert forall|j: int|
            0 <= j < s.inputs.len() && #[trigger] s.inputs[j].id == id implies j == s.idx_of(id) by {
            if j != s.idx_of(id) {
                if j < s.idx_of(id) {
                    assert(s.inputs[j].id != s.inputs[s.idx_of(id)].id);
                } else {
                    assert(s.inputs[s.idx_of(id)].id != s.inputs[j].id);
                }
            }
        }
    }
}

/// Replacing a record in place preserves well-formedness, membership, and
/// every other input's record, as long as the identity is kept.
pub proof fn lemma_with_rec(s: SelectorModel, id: u32, r: RecordModel)
    requires
        s.wf(),
        s.has_input(id),
        r.id == id,
        rec_wf(r),
    ensures
        s.with_rec(id, r).wf(),
        forall|x: u32| s.with_rec(id, r).has_input(x) == s.has_input(x),
        s.with_rec(id, r).rec(id) == r,
        forall|x: u32|
            x != id && s.has_input(x) ==> #[trigger] s.with_rec(id, r).rec(x) == s.rec(x),
        s.with_rec(id, r).inputs.len() == s.inputs.len(),
        forall|i: int| 0 <= i < s.inputs.len() ==> #[trigger] s.with_rec(id, r).inputs[i].id
            == s.inputs[i].id,
        s.with_rec(id, r).active_input == s.active_input,
        s.with_rec(id, r).just_switched == s.just_switched,
        s.with_rec(id, r).serial == s.serial,
{
    let t = s.with_rec(id, r);
    lemma_idx_of(s, id);
    let i = s.idx_of(id);
    assert forall|x: u32| t.has_input(x) == s.has_input(x) by {
        if s.has_input(x) {
            lemma_idx_of(s, x);
            let j = s.idx_of(x);
            assert(t.inputs[j].id == x);
        }
        if t.has_input(x) {
            let j = choose|j: int| 0 <= j < t.inputs.len() && #[trigger] t.inputs[j].id == x;
            assert(s.inputs[if j == i { i } else { j }].id == x || r.id == x);
            if j == i {
                assert(s.inputs[i].id == id);
                assert(x == id);
            } else {
                assert(s.inputs[j].id == x);
            }
        }
    }
    assert(t.has_input(id));
    lemma_idx_of(t, id);
    assert(t.inputs[i].id == id);
    assert(t.idx_of(id) == i);
    assert forall|x: u32| x != id && s.has_input(x) implies #[trigger] t.rec(x) == s.rec(x) by {
        lemma_idx_of(s, x);
        let j = s.idx_of(x);
        assert(t.inputs[j].id == x);
        lemma_idx_of(t, x);
        assert(t.idx_of(x) == j);
    }
}

/// The first half of a buffer cycle never touches the selection, the
/// registry's shape, the serial counter, or any other input's record; on
/// its own input it registers the wait, clears any stale cancellation, and
/// consumes the resend flag exactly when a replay is owed.
pub proof fn lemma_begin_next_frame(s: SelectorModel, id: u32)
    requires
        s.wf(),
        s.has_input(id),
    ensures
        s.begin_next(id).wf(),
        forall|x: u32| s.begin_next(id).has_input(x) == s.has_input(x),
        s.begin_next(id).active_input == s.active_input,
        s.begin_next(id).serial == s.serial,
        s.begin_next(id).inputs.len() == s.inputs.len(),
        forall|i: int| 0 <= i < s.inputs.len() ==> #[trigger] s.begin_next(id).inputs[i].id
            == s.inputs[i].id,
        s.begin_next(id).just_switched == (if s.replay_owed(id) {
            false
        } else {
            s.just_switched
        }),
        forall|x: u32|
            x != id && s.has_input(x) ==> #[trigger] s.begin_next(id).rec(x) == s.rec(x),
        s.begin_next(id).rec(id) == (RecordModel {
            wait_pending: s.rec(id).last_segment is Some,
            wait_cancelled: false,
            pending_sticky_resend: if s.replay_owed(id) {
                false
            } else {
                s.rec(id).pending_sticky_resend
            },
            ..s.rec(id)
        }),
{
    lemma_idx_of(s, id);
    assert(rec_wf(s.rec(id)));
    let r1 = RecordModel {
        wait_pending: s.rec(id).last_segment is Some,
        wait_cancelled: false,
        pending_sticky_resend: if s.replay_owed(id) {
            false
        } else {
            s.rec(id).pending_sticky_resend
        },
        ..s.rec(id)
    };
    lemma_with_rec(s, id, r1);
    let w = s.with_rec(id, r1);
    let s1 = s.begin_next(id);
    assert(s1.inputs == w.inputs);
    assert forall|x: u32| s1.has_input(x) == w.has_input(x) by {
        if w.has_input(x) {
            let j = choose|j: int| 0 <= j < w.inputs.len() && #[trigger] w.inputs[j].id == x;
            assert(s1.inputs[j].id == x);
        }
        if s1.has_input(x) {
            let j = choose|j: int| 0 <= j < s1.inputs.len() && #[trigger] s1.inputs[j].id == x;
            assert(w.inputs[j].id == x);
        }
    }
    assert forall|x: u32| s.has_input(x) implies #[trigger] s1.rec(x) == w.rec(x) by {
        lemma_idx_of(w, x);
        let j = w.idx_of(x);
        assert(s1.inputs[j].id == x);
        lemma_idx_of(s1, x);
        assert(s1.idx_of(x) == j);
    }
    assert(s1.rec(id) == r1);
}

/// The second half of a buffer cycle only ends the wait on its own input:
/// everything else, on every input, stays as it was.
pub proof fn lemma_finish_next_frame(s: SelectorModel, id: u32)
    requires
        s.wf(),
        s.has_input(id),
    ensures
        s.finish_next(id).wf(),
        forall|x: u32| s.finish_next(id).has_input(x) == s.has_input(x),
        s.finish_next(id).active_input == s.active_input,
        s.finish_next(id).serial == s.serial,
        s.finish_next(id).inputs.len() == s.inputs.len(),
        forall|i: int| 0 <= i < s.inputs.len() ==> #[trigger] s.finish_next(id).inputs[i].id
            == s.inputs[i].id,
        s.finish_next(id).just_switched == s.just_switched,
        forall|x: u32|
            x != id && s.has_input(x) ==> #[trigger] s.finish_next(id).rec(x) == s.rec(x),
        s.finish_next(id).rec(id) == (RecordModel {
            wait_pending: false,
            wait_cancelled: false,
            ..s.rec(id)
        }),
{
    lemma_idx_of(s, id);
    assert(rec_wf(s.rec(id)));
    let r2 = RecordModel { wait_pending: false, wait_cancelled: false, ..s.rec(id) };
    lemma_with_rec(s, id, r2);
}

/// Composing the two undisturbed halves: nothing can have cancelled the
/// wait in between, so the cycle succeeds, and what the halves emit
/// together is exactly the cycle's output.
pub proof fn lemma_buffer_cycle(s: SelectorModel, id: u32, b: Buffer, now: Option<u64>)
    requires
        s.wf(),
        s.has_input(id),
    ensures
        !s.begin_next(id).finish_cancelled(s.begin_job(id, b, now)),
        s.begin_next(id).finish_result(s.begin_job(id, b, now)) == Result::<(), FlowError>::Ok(()),
        s.begin_out(id) + s.begin_next(id).finish_out(s.begin_job(id, b, now)) == s.buffer_out(
            id,
            b,
        ),
        s.begin_next(id).finish_next(id) == s.buffer_next(id),
{
    lemma_begin_next_frame(s, id);
    let job = s.begin_job(id, b, now);
    let s1 = s.begin_next(id);
    assert(!s1.rec(id).wait_cancelled);
    if !job.is_active {
        assert(!s.replay_owed(id));
        assert(s.begin_out(id) =~= Seq::<OutputItem>::empty());
        assert(s.begin_out(id) + s1.finish_out(job) =~= s.buffer_out(id, b));
    } else {
        assert(forwarded_buffer(job) == (if s.just_switched && !b.discont {
            Buffer { discont: true, ..b }
        } else {
            b
        }));
        assert(s.begin_out(id) + s1.finish_out(job) =~= s.buffer_out(id, b));
    }
}

/// Removing an input only removes its record: every other input stays
/// connected with its record intact, and the selection, switch flag and
/// serial counter stay as they were.
pub proof fn lemma_remove_next_frame(s: SelectorModel, id: u32)
    requires
        s.wf(),
        s.has_input(id),
    ensures
        s.remove_next(id).wf(),
        !s.remove_next(id).has_input(id),
        forall|x: u32| x != id ==> #[trigger] s.remove_next(id).has_input(x) == s.has_input(x),
        s.remove_next(id).active_input == s.active_input,
        s.remove_next(id).just_switched == s.just_switched,
        s.remove_next(id).serial == s.serial,
        s.remove_next(id).inputs.len() == s.inputs.len() - 1,
{
    lemma_idx_of(s, id);
    let k = s.idx_of(id);
    let post = s.remove_next(id);
    assert forall|a: int, b: int|
        0 <= a < b < post.inputs.len() implies post.inputs[a].id != post.inputs[b].id by {
        let a0 = if a < k {
            a
        } else {
            a + 1
        };
        let b0 = if b < k {
            b
        } else {
            b + 1
        };
        assert(post.inputs[a] == s.inputs[a0]);
        assert(post.inputs[b] == s.inputs[b0]);
    }
    assert forall|a: int| 0 <= a < post.inputs.len() implies #[trigger] post.inputs[a].id
        < post.serial && rec_wf(post.inputs[a]) by {
        let a0 = if a < k {
            a
        } else {
            a + 1
        };
        assert(post.inputs[a] == s.inputs[a0]);
    }
    assert(!post.has_input(id)) by {
        if post.has_input(id) {
            let j = choose|j: int| 0 <= j < post.inputs.len() && #[trigger] post.inputs[j].id == id;
            let j0 = if j < k {
                j
            } else {
                j + 1
            };
            assert(post.inputs[j] == s.inputs[j0]);
            assert(j0 == k);
            assert(false);
        }
    }
    assert forall|x: u32| x != id implies #[trigger] post.has_input(x) == s.has_input(x) by {
        if s.has_input(x) {
            lemma_idx_of(s, x);
            let j0 = s.idx_of(x);
            assert(j0 != k);
            let j = if j0 < k {
                j0
            } else {
                j0 - 1
            };
            assert(post.inputs[j] == s.inputs[j0]);
        }
        if post.has_input(x) {
            let j = choose|j: int| 0 <= j < post.inputs.len() && #[trigger] post.inputs[j].id == x;
            let j0 = if j < k {
                j
            } else {
                j + 1
            };
            assert(post.inputs[j] == s.inputs[j0]);
        }
    }
}

/// An undisturbed buffer cycle never touches the selection, the registry's
/// shape, the serial counter, or any other input's record; on the cycle's
/// own input it consumes at most the resend flag and leaves no wait.
pub proof fn lemma_buffer_next_frame(s: SelectorModel, id: u32)
    requires
        s.wf(),
        s.has_input(id),
    ensures
        s.buffer_next(id).wf(),
        forall|x: u32| s.buffer_next(id).has_input(x) == s.has_input(x),
        s.buffer_next(id).active_input == s.active_input,
        s.buffer_next(id).serial == s.serial,
        s.buffer_next(id).inputs.len() == s.inputs.len(),
        forall|i: int| 0 <= i < s.inputs.len() ==> #[trigger] s.buffer_next(id).inputs[i].id
            == s.inputs[i].id,
        s.buffer_next(id).just_switched == (if s.replay_owed(id) {
            false
        } else {
            s.just_switched
        }),
        forall|x: u32|
            x != id && s.has_input(x) ==> #[trigger] s.buffer_next(id).rec(x) == s.rec(x),
        s.buffer_next(id).rec(id) == (RecordModel {
            wait_pending: false,
            wait_cancelled: false,
            pending_sticky_resend: if s.replay_owed(id) {
                false
            } else {
                s.rec(id).pending_sticky_resend
            },
            ..s.rec(id)
        }),
{
    lemma_begin_next_frame(s, id);
    let s1 = s.begin_next(id);
    lemma_finish_next_frame(s1, id);
    assert forall|x: u32|
        x != id && s.has_input(x) implies #[trigger] s.buffer_next(id).rec(x) == s.rec(x) by {
        assert(s1.rec(x) == s.rec(x));
        assert(s1.finish_next(id).rec(x) == s1.rec(x));
    }
}

} // verus!
