use unicycle::curve::{interpolation_search, locate, TimeSlot};
use unicycle::error_analysis::{quarter_turn_hits, QuarterTurnHits};

#[test]
fn finds_present_keys() {
    let keys = [0i64, 10, 20, 30, 40, 50];
    for (i, k) in keys.iter().enumerate() {
        assert_eq!(interpolation_search(&keys, *k), Ok(i));
    }
}

#[test]
fn reports_insertion_points() {
    let keys = [0i64, 10, 20, 30, 40, 50];
    assert_eq!(interpolation_search(&keys, -5), Err(0));
    assert_eq!(interpolation_search(&keys, 5), Err(1));
    assert_eq!(interpolation_search(&keys, 35), Err(4));
    assert_eq!(interpolation_search(&keys, 49), Err(5));
    assert_eq!(interpolation_search(&keys, 51), Err(6));
}

#[test]
fn uneven_keys() {
    let keys = [1i64, 2, 3, 100, 1000, 1001, 1002, 5000];
    assert_eq!(interpolation_search(&keys, 1001), Ok(5));
    assert_eq!(interpolation_search(&keys, 999), Err(4));
    assert_eq!(interpolation_search(&keys, 4), Err(3));
    assert_eq!(interpolation_search(&keys, 4999), Err(7));
}

#[test]
fn single_key() {
    assert_eq!(interpolation_search(&[7i64], 7), Ok(0));
    assert_eq!(interpolation_search(&[7i64], 3), Err(0));
    assert_eq!(interpolation_search(&[7i64], 9), Err(1));
}

#[test]
fn extreme_keys() {
    let keys = [i64::MIN, -1, 0, i64::MAX];
    assert_eq!(interpolation_search(&keys, i64::MIN), Ok(0));
    assert_eq!(interpolation_search(&keys, i64::MAX), Ok(3));
    assert_eq!(interpolation_search(&keys, 5), Err(3));
    assert_eq!(interpolation_search(&keys, -2), Err(1));
}

#[test]
fn quarter_turns_within_one_quadrant() {
    // No multiple of pi/2 inside the interval.
    assert_eq!(
        quarter_turn_hits(1, 0),
        QuarterTurnHits { cos_max: false, sin_max: false, cos_min: false, sin_min: false }
    );
    // Only pi/2.
    assert_eq!(
        quarter_turn_hits(1, 1),
        QuarterTurnHits { cos_max: false, sin_max: true, cos_min: false, sin_min: false }
    );
    // -pi/2 and 0.
    assert_eq!(
        quarter_turn_hits(-1, 0),
        QuarterTurnHits { cos_max: true, sin_max: false, cos_min: false, sin_min: true }
    );
}

#[test]
fn quarter_turns_over_a_full_turn_hit_everything() {
    let all = QuarterTurnHits { cos_max: true, sin_max: true, cos_min: true, sin_min: true };
    assert_eq!(quarter_turn_hits(-6, -3), all);
    assert_eq!(quarter_turn_hits(5, 100), all);
    assert_eq!(
        quarter_turn_hits(6, 8),
        QuarterTurnHits { cos_max: true, sin_max: false, cos_min: true, sin_min: true }
    );
}

use unicycle::builder::{TimeWindow, MAX_LEVEL};

const HALF: u128 = 1 << 63;
const WHOLE: u128 = 1 << 64;

#[test]
fn windows_halve_and_return() {
    let mut w = TimeWindow::new();
    assert_eq!(w.level(), 0);
    assert_eq!(w.end_time(), WHOLE);
    assert!(w.can_descend());
    w.descend_left();
    assert_eq!(w.level(), 1);
    assert_eq!(w.end_time(), HALF);
    assert!(w.is_left_half());
    assert!(w.can_record_end());
    assert_eq!(w.record_end(), HALF);
    assert!(!w.can_record_end());
    w.switch_to_right();
    assert!(w.is_right_half());
    assert_eq!(w.end_time(), WHOLE);
    assert!(w.can_descend());
    w.descend_left();
    assert_eq!(w.level(), 2);
    assert_eq!(w.end_time(), HALF + HALF / 2);
    assert_eq!(w.record_end(), HALF + HALF / 2);
    w.switch_to_right();
    assert_eq!(w.end_time(), WHOLE);
    w.ascend_from_right();
    assert_eq!(w.end_time(), WHOLE);
    assert_eq!(w.level(), 1);
    w.ascend_from_right();
    assert_eq!(w.level(), 0);
    assert_eq!(w.end_time(), WHOLE);
    assert_eq!(w.record_end(), WHOLE);
}

#[test]
fn windows_stop_at_the_deepest_level() {
    let mut w = TimeWindow::new();
    for _ in 0..MAX_LEVEL {
        assert!(w.can_descend());
        w.descend_left();
    }
    assert!(!w.can_descend());
    assert_eq!(w.level(), MAX_LEVEL);
    assert_eq!(w.end_time(), 2);
    assert_eq!(w.record_end(), 2);
}

#[test]
fn recorded_times_only_grow() {
    let mut w = TimeWindow::new();
    w.descend_left();
    w.descend_left();
    let first = w.record_end();
    w.switch_to_right();
    w.ascend_from_right();
    let second = w.record_end();
    w.switch_to_right();
    w.ascend_from_right();
    let third = w.record_end();
    assert!(first < second && second < third);
    assert_eq!((first, second, third), (HALF / 2, HALF, WHOLE));
}

#[test]
fn locate_picks_sample_or_segment() {
    let keys = [0i64, 10, 20, 30];
    assert_eq!(locate(&keys, 20), Some(TimeSlot::At(2)));
    assert_eq!(locate(&keys, 0), Some(TimeSlot::At(0)));
    assert_eq!(locate(&keys, 30), Some(TimeSlot::At(3)));
    assert_eq!(locate(&keys, 15), Some(TimeSlot::Between(1, 2)));
    assert_eq!(locate(&keys, 1), Some(TimeSlot::Between(0, 1)));
    assert_eq!(locate(&keys, -1), None);
    assert_eq!(locate(&keys, 31), None);
}
