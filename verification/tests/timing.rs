use input_selector::timing::{wait_deadline, Fraction, TimeSegment};

#[test]
fn identity_segment_maps_pts_straight() {
    let seg = TimeSegment::identity();
    assert_eq!(seg.to_running_time(Some(5)), Some(5));
    assert_eq!(seg.to_running_time(Some(0)), Some(0));
    assert_eq!(seg.to_running_time(None), None);
}

#[test]
fn base_and_start_shift_the_mapping() {
    let seg = TimeSegment {
        base: 100,
        start: 50,
        rate: Fraction::one(),
        applied_rate: Fraction::one(),
    };
    assert_eq!(seg.to_running_time(Some(70)), Some(120));
    assert_eq!(seg.to_running_time(Some(50)), Some(100));
    // A timestamp before the segment's start lies outside it.
    assert_eq!(seg.to_running_time(Some(49)), None);
}

#[test]
fn rate_scales_elapsed_time() {
    // Double speed: presentation time advances twice as fast as running
    // time, so ten units of pts make five of running time.
    let double = TimeSegment {
        base: 0,
        start: 100,
        rate: Fraction { num: 2, den: 1 },
        applied_rate: Fraction::one(),
    };
    assert_eq!(double.to_running_time(Some(110)), Some(5));
    // Half speed: ten units of pts make twenty of running time.
    let half = TimeSegment {
        base: 0,
        start: 100,
        rate: Fraction { num: 1, den: 2 },
        applied_rate: Fraction::one(),
    };
    assert_eq!(half.to_running_time(Some(110)), Some(20));
}

#[test]
fn rate_division_truncates() {
    let third = TimeSegment {
        base: 0,
        start: 0,
        rate: Fraction { num: 3, den: 1 },
        applied_rate: Fraction::one(),
    };
    assert_eq!(third.to_running_time(Some(10)), Some(3));
}

#[test]
fn mapping_beyond_the_clock_range_is_none() {
    let seg = TimeSegment {
        base: u64::MAX,
        start: 0,
        rate: Fraction::one(),
        applied_rate: Fraction::one(),
    };
    assert_eq!(seg.to_running_time(Some(0)), Some(u64::MAX));
    assert_eq!(seg.to_running_time(Some(1)), None);
}

#[test]
fn applied_rate_plays_no_part_in_the_mapping() {
    let seg = TimeSegment {
        base: 0,
        start: 0,
        rate: Fraction::one(),
        applied_rate: Fraction { num: 4, den: 3 },
    };
    assert_eq!(seg.to_running_time(Some(9)), Some(9));
}

#[test]
fn wait_deadline_is_the_future_target_only() {
    assert_eq!(wait_deadline(Some(5), Some(10)), Some(10));
    assert_eq!(wait_deadline(Some(10), Some(10)), None);
    assert_eq!(wait_deadline(Some(11), Some(10)), None);
    // No clock reading is not the same as already due: without a reading
    // there is nothing to suspend against, and the buffer goes on.
    assert_eq!(wait_deadline(None, Some(10)), None);
    assert_eq!(wait_deadline(Some(5), None), None);
    assert_eq!(wait_deadline(None, None), None);
}
