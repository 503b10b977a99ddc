//! The per-input synchronization handler and the output query handler.
//!
//! A buffer cycle has two halves, split where the input's task suspends.
//! `begin_buffer` runs the critical section: it snapshots the switch state,
//! registers the cancellable wait and hands back the owed sticky replay.
//! The runtime then forwards the replay, performs the wait (the job says
//! until when), and calls `finish_buffer`, which reports a cancelled wait
//! as flushing and otherwise hands back the buffer to forward, marked
//! discontinuous if a switch just occurred.  `handle_buffer` is the whole
//! undisturbed cycle; `handle_buffer_list` runs a batch in order.

use vstd::prelude::*;
use crate::error::FlowError;
use crate::model::{
    lemma_begin_next_frame, lemma_buffer_cycle, lemma_buffer_next_frame, lemma_finish_next_frame,
    lemma_idx_of, lemma_with_rec, BufferJob, RecordModel, SelectorModel,
};
use crate::selector::InputSelector;
use crate::stream::{
    Buffer, ImmediateEvent, Latency, LatencyAnswer, OutputItem, SerializedEvent, StickyItem,
    UpstreamLatency,
};
use crate::timing::wait_deadline;

verus! {

impl InputSelector {
    /// The critical section opening a buffer cycle on input `id`, with
    /// `now` the clock adapter's current running-time reading.  Registers
    /// this input's cancellable wait (replacing any previous one), decides
    /// activity and the owed sticky replay under one snapshot, and returns
    /// the job for `finish_buffer` together with the replay to forward
    /// ahead of the buffer.
    pub fn begin_buffer(&mut self, id: u32, buffer: Buffer, now: Option<u64>) -> (r: (
        BufferJob,
        Vec<OutputItem>,
    ))
        requires
            old(self).wf(),
            old(self)@.has_input(id),
        ensures
            r.0 == old(self)@.begin_job(id, buffer, now),
            r.1@ == old(self)@.begin_out(id),
            final(self)@ == old(self)@.begin_next(id),
            final(self).wf(),
            final(self)@.has_input(id),
    {
        proof {
            lemma_idx_of(old(self)@, id);
            lemma_begin_next_frame(old(self)@, id);
        }
        let i = match self.find_input(id) {
            Option::Some(i) => i,
            Option::None => {
                proof {
                    assert(false);
                }
                0
            },
        };
        let is_active = match self.active_input {
            Option::Some(a) => a == id,
            Option::None => false,
        };
        let switched = self.just_switched;
        let (cancellable, target) = match self.inputs[i].last_segment {
            Option::Some(seg) => {
                proof {
                    assert(crate::model::rec_wf(old(self)@.inputs[i as int]));
                }
                (true, seg.to_running_time(buffer.pts))
            },
            Option::None => (false, Option::None),
        };
        let deadline = wait_deadline(now, target);
        self.inputs[i].wait_pending = cancellable;
        self.inputs[i].wait_cancelled = false;
        let ghost mid = self@;
        let mut out: Vec<OutputItem> = Vec::new();
        let owed = is_active && (self.inputs[i].pending_sticky_resend || switched);
        proof {
            assert(mid.inputs =~= old(self)@.inputs.update(
                i as int,
                (RecordModel {
                    wait_pending: cancellable,
                    wait_cancelled: false,
                    ..old(self)@.rec(id)
                }),
            ));
            assert(owed == old(self)@.replay_owed(id));
        }
        if owed {
            let m = self.inputs[i].stickies.len();
            let mut k: usize = 0;
            while k < m
                invariant
                    i < self.inputs@.len(),
                    m == self.inputs@[i as int]@.stickies.len(),
                    k <= m,
                    out@ == self.inputs@[i as int]@.stickies.take(k as int).map_values(
                        |s: StickyItem| OutputItem::Sticky(s),
                    ),
                decreases m - k,
            {
                let item = self.inputs[i].stickies[k];
                out.push(OutputItem::Sticky(item));
                proof {
                    let st = self.inputs@[i as int]@.stickies;
                    assert(st.take(k + 1) =~= st.take(k as int).push(st[k as int]));
                    assert(st.take(k + 1).map_values(|s: StickyItem| OutputItem::Sticky(s))
                        =~= st.take(k as int).map_values(|s: StickyItem| OutputItem::Sticky(s)).push(
                        OutputItem::Sticky(st[k as int]),
                    ));
                }
                k = k + 1;
            }
            proof {
                let st = self.inputs@[i as int]@.stickies;
                assert(st.take(m as int) =~= st);
                assert(out@ == old(self)@.rec(id).stickies.map_values(
                    |s: StickyItem| OutputItem::Sticky(s),
                ));
            }
            self.inputs[i].pending_sticky_resend = false;
            self.just_switched = false;
        }
        let job = BufferJob {
            input: id,
            buffer: buffer,
            is_active: is_active,
            switched: switched,
            cancellable: cancellable,
            deadline: deadline,
        };
        proof {
            assert(self@.inputs =~= old(self)@.begin_next(id).inputs);
            assert(self@ =~= old(self)@.begin_next(id));
            if !owed {
                assert(old(self)@.begin_out(id) =~= Seq::<OutputItem>::empty());
            }
        }
        (job, out)
    }

    /// The close of a buffer cycle, once the runtime's wait has ended.  A
    /// wait cancelled in the meantime (flush-start was handled on this
    /// input between the halves) abandons the cycle as flushing; an
    /// inactive input succeeds without forwarding; the active input
    /// forwards the buffer, marked discontinuous if a switch had just
    /// occurred and the buffer did not already carry the marker.
    pub fn finish_buffer(&mut self, job: BufferJob) -> (r: (
        Result<(), FlowError>,
        Vec<OutputItem>,
    ))
        requires
            old(self).wf(),
            old(self)@.has_input(job.input),
        ensures
            r.0 == old(self)@.finish_result(job),
            r.1@ == old(self)@.finish_out(job),
            final(self)@ == old(self)@.finish_next(job.input),
            final(self).wf(),
            final(self)@.has_input(job.input),
    {
        proof {
            lemma_idx_of(old(self)@, job.input);
            lemma_finish_next_frame(old(self)@, job.input);
        }
        let i = match self.find_input(job.input) {
            Option::Some(i) => i,
            Option::None => {
                proof {
                    assert(false);
                }
                0
            },
        };
        let cancelled = job.cancellable && self.inputs[i].wait_cancelled;
        self.inputs[i].wait_pending = false;
        self.inputs[i].wait_cancelled = false;
        proof {
            assert(self@.inputs =~= old(self)@.finish_next(job.input).inputs);
            assert(self@ =~= old(self)@.finish_next(job.input));
        }
        let mut out: Vec<OutputItem> = Vec::new();
        if cancelled {
            return (Result::Err(FlowError::Flushing), out);
        }
        if !job.is_active {
            return (Result::Ok(()), out);
        }
        let mut b = job.buffer;
        if job.switched && !b.discont {
            b.discont = true;
        }
        proof {
            assert(b == crate::model::forwarded_buffer(job));
        }
        out.push(OutputItem::Buffer(b));
        (Result::Ok(()), out)
    }

    /// One whole, undisturbed buffer cycle on input `id`: both halves with
    /// no flush in between, so it always succeeds.  Returns the items to
    /// forward in order — nothing at all when the input is not the active
    /// one — and the deadline the wait would have suspended until, if any.
    pub fn handle_buffer(&mut self, id: u32, buffer: Buffer, now: Option<u64>) -> (r: (
        Result<(), FlowError>,
        Vec<OutputItem>,
        Option<u64>,
    ))
        requires
            old(self).wf(),
            old(self)@.has_input(id),
        ensures
            r.0 == Result::<(), FlowError>::Ok(()),
            r.1@ == old(self)@.buffer_out(id, buffer),
            r.2 == old(self)@.begin_job(id, buffer, now).deadline,
            final(self)@ == old(self)@.buffer_next(id),
            final(self).wf(),
            final(self)@.has_input(id),
            final(self)@.active_input == old(self)@.active_input,
            old(self)@.active_input != Option::Some(id) ==> r.1@ == Seq::<OutputItem>::empty(),
    {
        proof {
            lemma_buffer_cycle(old(self)@, id, buffer, now);
            lemma_begin_next_frame(old(self)@, id);
            lemma_buffer_next_frame(old(self)@, id);
        }
        let (job, mut out) = self.begin_buffer(id, buffer, now);
        let (res, mut tail) = self.finish_buffer(job);
        out.append(&mut tail);
        proof {
            assert(out@ == old(self)@.buffer_out(id, buffer));
            if old(self)@.active_input != Option::Some(id) {
                assert(old(self)@.buffer_out(id, buffer) =~= Seq::<OutputItem>::empty());
            }
        }
        (res, out, job.deadline)
    }

    /// A batch of buffers on input `id`, processed in arrival order as the
    /// same sequence of buffer cycles.  Forwarding already performed is
    /// never undone; with no flush in between, every cycle succeeds.
    pub fn handle_buffer_list(&mut self, id: u32, buffers: &Vec<Buffer>, now: Option<u64>) -> (r: (
        Result<(), FlowError>,
        Vec<OutputItem>,
    ))
        requires
            old(self).wf(),
            old(self)@.has_input(id),
        ensures
            r.0 == Result::<(), FlowError>::Ok(()),
            r.1@ == old(self)@.list_out(id, buffers@),
            final(self)@ == old(self)@.list_next(id, buffers@),
            final(self).wf(),
    {
        let n = buffers.len();
        let mut out: Vec<OutputItem> = Vec::new();
        let mut k: usize = 0;
        proof {
            assert(buffers@.skip(0) =~= buffers@);
        }
        while k < n
            invariant
                self.wf(),
                self@.has_input(id),
                n == buffers@.len(),
                k <= n,
                self@.list_next(id, buffers@.skip(k as int)) == old(self)@.list_next(
                    id,
                    buffers@,
                ),
                out@ + self@.list_out(id, buffers@.skip(k as int)) == old(self)@.list_out(
                    id,
                    buffers@,
                ),
            decreases n - k,
        {
            let ghost pre = self@;
            let ghost sfx = buffers@.skip(k as int);
            let b = buffers[k];
            let (_res, mut step_out, _dl) = self.handle_buffer(id, b, now);
            proof {
                assert(sfx.len() > 0);
                assert(sfx[0] == buffers@[k as int]);
                assert(sfx.drop_first() =~= buffers@.skip(k as int + 1));
                assert(pre.list_next(id, sfx) == pre.buffer_next(id).list_next(
                    id,
                    sfx.drop_first(),
                ));
                assert(pre.list_out(id, sfx) == pre.buffer_out(id, sfx[0]) + pre.buffer_next(
                    id,
                ).list_out(id, sfx.drop_first()));
            }
            let ghost out_pre = out@;
            out.append(&mut step_out);
            proof {
                assert(out@ + self@.list_out(id, buffers@.skip(k as int + 1)) == old(self)@.list_out(
                    id,
                    buffers@,
                )) by {
                    assert((out@ + self@.list_out(id, buffers@.skip(k as int + 1))) =~= (out_pre + (
                    pre.buffer_out(id, sfx[0]) + pre.buffer_next(id).list_out(
                        id,
                        sfx.drop_first(),
                    ))));
                }
            }
            k = k + 1;
        }
        proof {
            assert(buffers@.skip(n as int) =~= Seq::<Buffer>::empty());
            assert(self@.list_next(id, buffers@.skip(n as int)) == self@);
            assert(self@.list_out(id, buffers@.skip(n as int)) =~= Seq::<OutputItem>::empty());
            assert(out@ + Seq::<OutputItem>::empty() =~= out@);
        }
        (Result::Ok(()), out)
    }

    /// A serialized event on input `id`.  A segment replaces this input's
    /// time-base mapping; a sticky item is accumulated in announce order;
    /// both mark the sticky resend owed.  Everything else is accepted and
    /// dropped — a known limitation kept as it is.  Always reports the
    /// event taken.
    pub fn handle_serialized_event(&mut self, id: u32, ev: SerializedEvent) -> (r: bool)
        requires
            old(self).wf(),
            old(self)@.has_input(id),
            ev matches SerializedEvent::Segment(seg) ==> seg.wf(),
        ensures
            r == true,
            final(self)@ == old(self)@.serialized_next(id, ev),
            final(self).wf(),
            final(self)@.has_input(id),
    {
        proof {
            lemma_idx_of(old(self)@, id);
        }
        let i = match self.find_input(id) {
            Option::Some(i) => i,
            Option::None => {
                proof {
                    assert(false);
                }
                0
            },
        };
        match ev {
            SerializedEvent::Segment(seg) => {
                self.inputs[i].last_segment = Option::Some(seg);
                self.inputs[i].pending_sticky_resend = true;
                proof {
                    let r1 = RecordModel {
                        last_segment: Option::Some(seg),
                        pending_sticky_resend: true,
                        ..old(self)@.rec(id)
                    };
                    lemma_with_rec(old(self)@, id, r1);
                    assert(self@.inputs =~= old(self)@.with_rec(id, r1).inputs);
                    assert(self@ =~= old(self)@.serialized_next(id, ev));
                    assert(self@.has_input(id));
                }
            },
            SerializedEvent::Sticky(item) => {
                self.inputs[i].stickies.push(item);
                self.inputs[i].pending_sticky_resend = true;
                proof {
                    assert(crate::model::rec_wf(old(self)@.inputs[i as int]));
                    let r1 = RecordModel {
                        stickies: old(self)@.rec(id).stickies.push(item),
                        pending_sticky_resend: true,
                        ..old(self)@.rec(id)
                    };
                    lemma_with_rec(old(self)@, id, r1);
                    assert(self@.inputs =~= old(self)@.with_rec(id, r1).inputs);
                    assert(self@ =~= old(self)@.serialized_next(id, ev));
                    assert(self@.has_input(id));
                }
            },
            SerializedEvent::Other => {},
        }
        true
    }

    /// An event handled immediately on input `id`, possibly from another
    /// task than the one processing its buffers.  Flush-start hands back
    /// the flush to propagate downstream at once and cancels this input's
    /// pending wait, if any; everything else is accepted and dropped.
    pub fn handle_immediate_event(&mut self, id: u32, ev: ImmediateEvent) -> (r: (
        bool,
        Vec<OutputItem>,
    ))
        requires
            old(self).wf(),
            old(self)@.has_input(id),
        ensures
            r.0 == true,
            final(self)@ == (match ev {
                ImmediateEvent::FlushStart => old(self)@.flush_next(id),
                ImmediateEvent::Other => old(self)@,
            }),
            r.1@ == (match ev {
                ImmediateEvent::FlushStart => seq![OutputItem::FlushStart],
                ImmediateEvent::Other => Seq::<OutputItem>::empty(),
            }),
            final(self).wf(),
            final(self)@.has_input(id),
    {
        proof {
            lemma_idx_of(old(self)@, id);
        }
        let mut out: Vec<OutputItem> = Vec::new();
        match ev {
            ImmediateEvent::FlushStart => {
                out.push(OutputItem::FlushStart);
                let i = match self.find_input(id) {
                    Option::Some(i) => i,
                    Option::None => {
                        proof {
                            assert(false);
                        }
                        0
                    },
                };
                if self.inputs[i].wait_pending {
                    self.inputs[i].wait_pending = false;
                    self.inputs[i].wait_cancelled = true;
                    proof {
                        assert(crate::model::rec_wf(old(self)@.inputs[i as int]));
                        let r1 = RecordModel {
                            wait_pending: false,
                            wait_cancelled: true,
                            ..old(self)@.rec(id)
                        };
                        lemma_with_rec(old(self)@, id, r1);
                        assert(self@.inputs =~= old(self)@.with_rec(id, r1).inputs);
                        assert(self@ =~= old(self)@.flush_next(id));
                        assert(self@.has_input(id));
                    }
                }
            },
            ImmediateEvent::Other => {},
        }
        (true, out)
    }

    /// Whether the wait registered on input `id` has been cancelled: what
    /// the runtime's cancellable timer polls while suspending.
    pub fn wait_cancelled(&self, id: u32) -> (r: bool)
        requires
            self.wf(),
            self@.has_input(id),
        ensures
            r == self@.rec(id).wait_cancelled,
    {
        proof {
            lemma_idx_of(self@, id);
        }
        let i = match self.find_input(id) {
            Option::Some(i) => i,
            Option::None => {
                proof {
                    assert(false);
                }
                0
            },
        };
        self.inputs[i].wait_cancelled
    }
}

/// Whether a query arriving on an input is forwarded to the output's
/// downstream peer.  Serialized queries (allocation, drain) would need
/// coordination across the inputs' tasks and are rejected as unsupported;
/// the rest are relayed, and the peer's verdict is reported back unchanged.
pub fn sink_query_forward(serialized: bool) -> (forward: bool)
    ensures
        forward == !serialized,
{
    !serialized
}

/// The node's answer to a latency query on its output: the active input's
/// upstream report is relayed unchanged; with no active input a safe
/// default of zero bounds with the live flag set is reported; a peer that
/// failed to answer fails the query, with the default bounds filled in.
pub fn answer_latency(upstream: UpstreamLatency) -> (r: LatencyAnswer)
    ensures
        upstream is NoActiveInput ==> r == (LatencyAnswer {
            ok: true,
            latency: Latency { live: true, min: 0, max: 0 },
        }),
        upstream is QueryFailed ==> r == (LatencyAnswer {
            ok: false,
            latency: Latency { live: true, min: 0, max: 0 },
        }),
        forall|l: Latency|
            upstream == UpstreamLatency::Reported(l) ==> r == (LatencyAnswer {
                ok: true,
                latency: l,
            }),
{
    match upstream {
        UpstreamLatency::NoActiveInput => LatencyAnswer {
            ok: true,
            latency: Latency { live: true, min: 0, max: 0 },
        },
        UpstreamLatency::QueryFailed => LatencyAnswer {
            ok: false,
            latency: Latency { live: true, min: 0, max: 0 },
        },
        UpstreamLatency::Reported(l) => LatencyAnswer { ok: true, latency: l },
    }
}

/// The verdict of any other query on the output: relayed to the active
/// input's upstream peer when one exists — the peer's verdict is the
/// answer — and reported successful unchanged when none does.
pub fn answer_other_query(has_active: bool, peer_ok: bool) -> (r: bool)
    ensures
        r == (if has_active {
            peer_ok
        } else {
            true
        }),
{
    if has_active {
        peer_ok
    } else {
        true
    }
}

} // verus!
