use input_selector::handler::{answer_latency, answer_other_query, sink_query_forward};
use input_selector::selector::InputSelector;
use input_selector::stream::{
    Buffer, ImmediateEvent, Latency, LatencyAnswer, OutputItem, SerializedEvent, UpstreamLatency,
};
use input_selector::error::FlowError;
use input_selector::timing::TimeSegment;

fn buf(offset: u64, pts: Option<u64>) -> Buffer {
    Buffer { offset, pts, discont: false }
}

#[test]
fn flush_start_cancels_pending_wait() {
    let now: u64 = 1_000;
    let mut sel = InputSelector::new();
    let a = sel.add_input();
    assert!(sel.handle_serialized_event(a, SerializedEvent::Segment(TimeSegment::identity())));
    // Open the cycle: the wait for a future deadline is registered.
    let (job, replay) = sel.begin_buffer(a, buf(1, Some(now + 500)), Some(now));
    assert!(job.cancellable);
    assert_eq!(job.deadline, Some(now + 500));
    assert_eq!(replay.len(), 0);
    assert!(!sel.wait_cancelled(a));
    // Flush-start from another context: propagated downstream at once,
    // and the wait is cancelled.
    let (taken, out) = sel.handle_immediate_event(a, ImmediateEvent::FlushStart);
    assert!(taken);
    assert_eq!(out, vec![OutputItem::FlushStart]);
    assert!(sel.wait_cancelled(a));
    // Closing the cycle reports flushing; the buffer is never forwarded.
    let (res, items) = sel.finish_buffer(job);
    assert_eq!(res, Err(FlowError::Flushing));
    assert!(items.is_empty());
    // The cancellation is consumed with the cycle.
    assert!(!sel.wait_cancelled(a));
}

#[test]
fn flush_start_without_wait_still_propagates() {
    let mut sel = InputSelector::new();
    let a = sel.add_input();
    let (taken, out) = sel.handle_immediate_event(a, ImmediateEvent::FlushStart);
    assert!(taken);
    assert_eq!(out, vec![OutputItem::FlushStart]);
    assert!(!sel.wait_cancelled(a));
}

#[test]
fn undisturbed_cycle_forwards_after_wait() {
    let now: u64 = 1_000;
    let mut sel = InputSelector::new();
    let a = sel.add_input();
    assert!(sel.handle_serialized_event(a, SerializedEvent::Segment(TimeSegment::identity())));
    let (job, replay) = sel.begin_buffer(a, buf(1, Some(now + 500)), Some(now));
    assert!(replay.is_empty());
    let (res, items) = sel.finish_buffer(job);
    assert!(res.is_ok());
    assert_eq!(
        items,
        vec![OutputItem::Buffer(Buffer { offset: 1, pts: Some(now + 500), discont: true })]
    );
}

#[test]
fn cycle_without_segment_is_not_cancellable() {
    let mut sel = InputSelector::new();
    let a = sel.add_input();
    let (job, _) = sel.begin_buffer(a, buf(1, None), Some(5));
    assert!(!job.cancellable);
    assert_eq!(job.deadline, None);
    // A flush in between still propagates, but there is no wait to
    // cancel: the cycle completes normally.
    let (_, out) = sel.handle_immediate_event(a, ImmediateEvent::FlushStart);
    assert_eq!(out, vec![OutputItem::FlushStart]);
    let (res, items) = sel.finish_buffer(job);
    assert!(res.is_ok());
    assert_eq!(items.len(), 1);
}

#[test]
fn other_immediate_events_are_dropped() {
    let mut sel = InputSelector::new();
    let a = sel.add_input();
    let (taken, out) = sel.handle_immediate_event(a, ImmediateEvent::Other);
    assert!(taken);
    assert!(out.is_empty());
}

#[test]
fn other_serialized_events_are_accepted_and_dropped() {
    let mut sel = InputSelector::new();
    let a = sel.add_input();
    assert!(sel.handle_serialized_event(a, SerializedEvent::Other));
    let (_, out, _) = sel.handle_buffer(a, buf(1, None), None);
    // Nothing was accumulated by the dropped event.
    assert_eq!(out, vec![OutputItem::Buffer(Buffer { offset: 1, pts: None, discont: true })]);
}

#[test]
fn a_new_wait_replaces_a_stale_cancellation() {
    let now: u64 = 1_000;
    let mut sel = InputSelector::new();
    let a = sel.add_input();
    assert!(sel.handle_serialized_event(a, SerializedEvent::Segment(TimeSegment::identity())));
    let (job, _) = sel.begin_buffer(a, buf(1, Some(now + 10)), Some(now));
    let (_, _) = sel.handle_immediate_event(a, ImmediateEvent::FlushStart);
    let (res, _) = sel.finish_buffer(job);
    assert_eq!(res, Err(FlowError::Flushing));
    // The next cycle starts a fresh wait: the old cancellation is gone.
    let (job2, _) = sel.begin_buffer(a, buf(2, Some(now + 20)), Some(now));
    assert!(!sel.wait_cancelled(a));
    let (res2, items2) = sel.finish_buffer(job2);
    assert!(res2.is_ok());
    assert_eq!(items2.len(), 1);
}

#[test]
fn serialized_queries_are_rejected_others_relayed() {
    assert!(!sink_query_forward(true));
    assert!(sink_query_forward(false));
}

#[test]
fn latency_query_relays_active_peer_bounds_unchanged() {
    let reported = Latency { live: false, min: 3, max: 70 };
    assert_eq!(
        answer_latency(UpstreamLatency::Reported(reported)),
        LatencyAnswer { ok: true, latency: reported }
    );
}

#[test]
fn latency_query_without_active_input_is_live_zero() {
    assert_eq!(
        answer_latency(UpstreamLatency::NoActiveInput),
        LatencyAnswer { ok: true, latency: Latency { live: true, min: 0, max: 0 } }
    );
}

#[test]
fn latency_query_with_failing_peer_fails() {
    assert_eq!(
        answer_latency(UpstreamLatency::QueryFailed),
        LatencyAnswer { ok: false, latency: Latency { live: true, min: 0, max: 0 } }
    );
}

#[test]
fn other_output_queries_follow_the_peer_or_default_to_success() {
    assert!(answer_other_query(true, true));
    assert!(!answer_other_query(true, false));
    assert!(answer_other_query(false, true));
    assert!(answer_other_query(false, false));
}
