use input_selector::selector::InputSelector;
use input_selector::stream::{Buffer, OutputItem, SerializedEvent, StickyItem};
use input_selector::timing::TimeSegment;

fn buf(offset: u64, pts: Option<u64>) -> Buffer {
    Buffer { offset, pts, discont: false }
}

#[test]
fn first_input_becomes_active_by_default() {
    let mut sel = InputSelector::new();
    assert_eq!(sel.active_pad(), None);
    let a = sel.add_input();
    assert_eq!(a, 0);
    assert_eq!(sel.active_pad(), Some(a));
    assert!(sel.switch_pending());
    let b = sel.add_input();
    assert_eq!(b, 1);
    assert_eq!(sel.active_pad(), Some(a));
    assert_eq!(sel.input_count(), 2);
}

#[test]
fn active_input_forwards_first_buffer_with_discont() {
    let mut sel = InputSelector::new();
    let a = sel.add_input();
    let (res, out, deadline) = sel.handle_buffer(a, buf(10, None), None);
    assert!(res.is_ok());
    assert_eq!(deadline, None);
    assert_eq!(out, vec![OutputItem::Buffer(Buffer { offset: 10, pts: None, discont: true })]);
    // The switch is consumed: the next buffer goes through untouched.
    let (res2, out2, _) = sel.handle_buffer(a, buf(11, None), None);
    assert!(res2.is_ok());
    assert_eq!(out2, vec![OutputItem::Buffer(Buffer { offset: 11, pts: None, discont: false })]);
}

#[test]
fn inactive_input_buffers_are_dropped() {
    let mut sel = InputSelector::new();
    let a = sel.add_input();
    let b = sel.add_input();
    assert_eq!(sel.active_pad(), Some(a));
    for k in 0..5 {
        let (res, out, _) = sel.handle_buffer(b, buf(k, None), None);
        assert!(res.is_ok());
        assert!(out.is_empty());
    }
}

#[test]
fn switch_replays_stickies_and_marks_discont() {
    let mut sel = InputSelector::new();
    let a = sel.add_input();
    let b = sel.add_input();
    // Announce two sticky items on b while it is inactive.
    assert!(sel.handle_serialized_event(b, SerializedEvent::Sticky(StickyItem { id: 100 })));
    assert!(sel.handle_serialized_event(b, SerializedEvent::Sticky(StickyItem { id: 101 })));
    // Drain a's pending switch.
    let _ = sel.handle_buffer(a, buf(0, None), None);
    // Switch to b: the very next buffer on b replays both items in
    // announce order and carries a discontinuity marker.
    sel.set_active(Some(b));
    assert!(sel.switch_pending());
    let (res, out, _) = sel.handle_buffer(b, buf(7, None), None);
    assert!(res.is_ok());
    assert_eq!(
        out,
        vec![
            OutputItem::Sticky(StickyItem { id: 100 }),
            OutputItem::Sticky(StickyItem { id: 101 }),
            OutputItem::Buffer(Buffer { offset: 7, pts: None, discont: true }),
        ]
    );
}

#[test]
fn discont_kept_if_buffer_already_carried_it() {
    let mut sel = InputSelector::new();
    let a = sel.add_input();
    let (_, out, _) = sel.handle_buffer(a, Buffer { offset: 3, pts: None, discont: true }, None);
    assert_eq!(out, vec![OutputItem::Buffer(Buffer { offset: 3, pts: None, discont: true })]);
}

#[test]
fn new_sticky_item_forces_full_replay_on_next_buffer() {
    let mut sel = InputSelector::new();
    let a = sel.add_input();
    assert!(sel.handle_serialized_event(a, SerializedEvent::Sticky(StickyItem { id: 1 })));
    let _ = sel.handle_buffer(a, buf(0, None), None);
    // No replay owed now.
    let (_, out, _) = sel.handle_buffer(a, buf(1, None), None);
    assert_eq!(out.len(), 1);
    // A further announcement owes a replay of everything accumulated.
    assert!(sel.handle_serialized_event(a, SerializedEvent::Sticky(StickyItem { id: 2 })));
    let (_, out2, _) = sel.handle_buffer(a, buf(2, None), None);
    assert_eq!(
        out2,
        vec![
            OutputItem::Sticky(StickyItem { id: 1 }),
            OutputItem::Sticky(StickyItem { id: 2 }),
            OutputItem::Buffer(Buffer { offset: 2, pts: None, discont: false }),
        ]
    );
}

#[test]
fn repeated_set_active_before_any_buffer_is_absorbed() {
    let mut sel = InputSelector::new();
    let a = sel.add_input();
    let b = sel.add_input();
    sel.set_active(Some(b));
    sel.set_active(Some(b));
    let (_, out, _) = sel.handle_buffer(b, buf(1, None), None);
    // One replay, one marked buffer: the second call added nothing.
    assert_eq!(out, vec![OutputItem::Buffer(Buffer { offset: 1, pts: None, discont: true })]);
    let (_, out2, _) = sel.handle_buffer(b, buf(2, None), None);
    assert_eq!(out2, vec![OutputItem::Buffer(Buffer { offset: 2, pts: None, discont: false })]);
    let _ = a;
}

#[test]
fn reselecting_the_active_input_marks_a_switch_again() {
    // The selection operation is deliberately permissive and unconditional:
    // selecting the input that is already active marks the switch anew, so
    // the next buffer is marked discontinuous once more.
    let mut sel = InputSelector::new();
    let a = sel.add_input();
    let _ = sel.handle_buffer(a, buf(0, None), None);
    assert!(!sel.switch_pending());
    sel.set_active(Some(a));
    assert!(sel.switch_pending());
    let (_, out, _) = sel.handle_buffer(a, buf(1, None), None);
    assert_eq!(out, vec![OutputItem::Buffer(Buffer { offset: 1, pts: None, discont: true })]);
}

#[test]
fn set_active_unknown_input_is_a_no_op() {
    let mut sel = InputSelector::new();
    let a = sel.add_input();
    let _ = sel.handle_buffer(a, buf(0, None), None);
    sel.set_active(Some(99));
    assert_eq!(sel.active_pad(), Some(a));
    assert!(!sel.switch_pending());
}

#[test]
fn set_active_none_deactivates_everything() {
    let mut sel = InputSelector::new();
    let a = sel.add_input();
    sel.set_active(None);
    assert_eq!(sel.active_pad(), None);
    let (res, out, _) = sel.handle_buffer(a, buf(0, None), None);
    assert!(res.is_ok());
    assert!(out.is_empty());
}

#[test]
fn buffer_list_forwards_in_order() {
    let mut sel = InputSelector::new();
    let a = sel.add_input();
    let buffers = vec![buf(1, None), buf(2, None), buf(3, None)];
    let (res, out) = sel.handle_buffer_list(a, &buffers, None);
    assert!(res.is_ok());
    assert_eq!(
        out,
        vec![
            OutputItem::Buffer(Buffer { offset: 1, pts: None, discont: true }),
            OutputItem::Buffer(Buffer { offset: 2, pts: None, discont: false }),
            OutputItem::Buffer(Buffer { offset: 3, pts: None, discont: false }),
        ]
    );
}

#[test]
fn removing_active_input_does_not_reassign() {
    let mut sel = InputSelector::new();
    let a = sel.add_input();
    let b = sel.add_input();
    sel.remove_input(a);
    assert!(!sel.contains_input(a));
    assert!(sel.contains_input(b));
    // The remaining input stays inactive: everything is dropped until a
    // new selection is made.
    let (res, out, _) = sel.handle_buffer(b, buf(5, None), None);
    assert!(res.is_ok());
    assert!(out.is_empty());
    sel.set_active(Some(b));
    let (_, out2, _) = sel.handle_buffer(b, buf(6, None), None);
    assert_eq!(out2, vec![OutputItem::Buffer(Buffer { offset: 6, pts: None, discont: true })]);
}

#[test]
fn inactive_input_still_times_its_buffers() {
    // An inactive input drops its buffers, but it still waits for their
    // deadlines: timing is independent of the selection.
    let mut sel = InputSelector::new();
    let a = sel.add_input();
    let b = sel.add_input();
    assert_eq!(sel.active_pad(), Some(a));
    assert!(sel.handle_serialized_event(b, SerializedEvent::Segment(TimeSegment::identity())));
    let (res, out, deadline) = sel.handle_buffer(b, buf(1, Some(500)), Some(100));
    assert!(res.is_ok());
    assert!(out.is_empty());
    assert_eq!(deadline, Some(500));
}

#[test]
fn segment_event_replaces_the_mapping() {
    let mut sel = InputSelector::new();
    let a = sel.add_input();
    assert!(sel.handle_serialized_event(a, SerializedEvent::Segment(TimeSegment::identity())));
    let (_, _, d1) = sel.handle_buffer(a, buf(1, Some(700)), Some(100));
    assert_eq!(d1, Some(700));
    // A new segment shifts later timestamps: base 1000 at start 600.
    let shifted = TimeSegment {
        base: 1000,
        start: 600,
        rate: input_selector::timing::Fraction::one(),
        applied_rate: input_selector::timing::Fraction::one(),
    };
    assert!(sel.handle_serialized_event(a, SerializedEvent::Segment(shifted)));
    let (_, _, d2) = sel.handle_buffer(a, buf(2, Some(700)), Some(100));
    assert_eq!(d2, Some(1100));
}

#[test]
fn reset_restores_default_switch_state() {
    let mut sel = InputSelector::new();
    let a = sel.add_input();
    let _ = sel.handle_buffer(a, buf(0, None), None);
    sel.reset();
    assert_eq!(sel.active_pad(), None);
    assert!(sel.switch_pending());
    assert_eq!(sel.input_count(), 1);
}

#[test]
fn two_input_switch_scenario() {
    // Two inputs; the first becomes active by default.  Three buffers on
    // it, timed now, now + 10 ms and now + 20 ms, all appear in order and
    // only the first carries a discontinuity; the later two report their
    // mapped deadlines.  After switching, the next buffer on the second
    // input — which has no segment — goes out immediately and marked;
    // a further buffer on the first input is dropped.
    let now: u64 = 1_000_000_000;
    let ms: u64 = 1_000_000;
    let mut sel = InputSelector::new();
    let a = sel.add_input();
    let b = sel.add_input();
    assert!(sel.handle_serialized_event(a, SerializedEvent::Segment(TimeSegment::identity())));
    let (r1, o1, d1) = sel.handle_buffer(a, buf(1, Some(now)), Some(now));
    let (r2, o2, d2) = sel.handle_buffer(a, buf(2, Some(now + 10 * ms)), Some(now));
    let (r3, o3, d3) = sel.handle_buffer(a, buf(3, Some(now + 20 * ms)), Some(now));
    assert!(r1.is_ok() && r2.is_ok() && r3.is_ok());
    assert_eq!(d1, None);
    assert_eq!(d2, Some(now + 10 * ms));
    assert_eq!(d3, Some(now + 20 * ms));
    assert_eq!(o1, vec![OutputItem::Buffer(Buffer { offset: 1, pts: Some(now), discont: true })]);
    assert_eq!(o2, vec![OutputItem::Buffer(Buffer { offset: 2, pts: Some(now + 10 * ms), discont: false })]);
    assert_eq!(o3, vec![OutputItem::Buffer(Buffer { offset: 3, pts: Some(now + 20 * ms), discont: false })]);
    sel.set_active(Some(b));
    let (r4, o4, d4) = sel.handle_buffer(b, buf(4, Some(now)), Some(now));
    assert!(r4.is_ok());
    assert_eq!(d4, None);
    assert_eq!(o4, vec![OutputItem::Buffer(Buffer { offset: 4, pts: Some(now), discont: true })]);
    let (r5, o5, _) = sel.handle_buffer(a, buf(5, Some(now + 30 * ms)), Some(now));
    assert!(r5.is_ok());
    assert!(o5.is_empty());
}
