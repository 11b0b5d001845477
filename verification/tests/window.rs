use heimdall::hourstat::{abs_difference, HourStat};

#[test]
fn three_records_in_window() {
    let mut stat = HourStat::new(10, 0, 1);
    stat.add(10, 0, 1);
    stat.add(10, 0, 1);
    assert_eq!(stat.sum(10, 0, &5), 3);
}

#[test]
fn two_records_stay_under_three() {
    let mut stat = HourStat::new(10, 0, 1);
    stat.add(10, 0, 1);
    assert_eq!(stat.sum(10, 0, &5), 2);
}

#[test]
fn window_spans_trailing_minutes() {
    let mut stat = HourStat::new(10, 10, 1);
    stat.add(10, 12, 1);
    stat.add(10, 14, 1);
    // window of 5 minutes ending at minute 14 covers minutes 10..14
    assert_eq!(stat.sum(10, 14, &5), 3);
    // window of 3 minutes ending at minute 14 covers minutes 12..14
    assert_eq!(stat.sum(10, 14, &3), 2);
}

#[test]
fn minute_window_wraps_numerically() {
    let mut stat = HourStat::new(10, 59, 1);
    stat.add(10, 1, 1);
    // the 5-minute window ending at minute 1 covers 1, 0, 59, 58, 57
    assert_eq!(stat.sum(10, 1, &5), 2);
}

#[test]
fn far_hour_jump_resets_counters() {
    let mut stat = HourStat::new(10, 0, 1);
    stat.add(10, 0, 1);
    stat.add(13, 0, 1);
    assert_eq!(stat.sum(13, 0, &5), 1);
}

#[test]
fn adjacent_hour_keeps_counters() {
    let mut stat = HourStat::new(10, 59, 1);
    stat.add(11, 0, 1);
    assert_eq!(stat.sum(11, 0, &5), 2);
}

#[test]
fn far_anchor_sums_to_zero() {
    let mut stat = HourStat::new(10, 0, 5);
    assert_eq!(stat.sum(13, 0, &5), 0);
}

#[test]
fn midnight_wrap_counts_as_far() {
    // 23 and 0 are treated as far apart: the counters reset
    let mut stat = HourStat::new(23, 59, 1);
    stat.add(0, 0, 1);
    assert_eq!(stat.sum(0, 0, &5), 1);
}

#[test]
fn abs_difference_is_symmetric() {
    assert_eq!(abs_difference(&3, &10), 7);
    assert_eq!(abs_difference(&10, &3), 7);
    assert_eq!(abs_difference(&4, &4), 0);
    assert_eq!(abs_difference(&23, &0), 23);
}
