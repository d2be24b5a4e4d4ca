use wd_passport::bucket::{resolve, MAX_BUCKETS};
use wd_passport::PassportEntity;

#[test]
fn resolve_floors_to_a_multiple_of_the_interval() {
    assert_eq!(resolve(1678377600, 2592000), Some(1677024000));
    assert_eq!(resolve(1675728000, 2592000), Some(1674432000));
    assert_eq!(resolve(0, 10), Some(0));
    assert_eq!(resolve(9, 10), Some(0));
    assert_eq!(resolve(10, 10), Some(10));
}

#[test]
fn resolve_floors_negative_timestamps_downwards() {
    assert_eq!(resolve(-5, 10), Some(-10));
    assert_eq!(resolve(-10, 10), Some(-10));
    assert_eq!(resolve(-11, 10), Some(-20));
}

#[test]
fn resolve_moves_with_whole_intervals() {
    let interval = 2592000;
    for t in [0i64, 1, 1678377600, -77, 2591999] {
        let base = resolve(t, interval).expect("in range");
        for k in [-3i64, -1, 0, 1, 2, 40] {
            assert_eq!(resolve(t + k * interval, interval), Some(base + k * interval));
        }
    }
}

#[test]
fn resolve_never_decreases() {
    let interval = 7;
    let mut last = resolve(-50, interval).expect("in range");
    for t in -49i64..50 {
        let bucket = resolve(t, interval).expect("in range");
        assert!(bucket >= last);
        assert!(bucket <= t && t < bucket + interval);
        last = bucket;
    }
}

#[test]
fn resolve_refuses_what_has_no_bucket() {
    assert_eq!(resolve(5, 0), None);
    assert_eq!(resolve(5, -3), None);
    assert_eq!(resolve(i64::MIN, 10), None);
    assert_eq!(resolve(i64::MIN, 1), Some(i64::MIN));
    assert_eq!(resolve(i64::MAX, i64::MAX), Some(i64::MAX));
}

#[test]
fn count_has_one_bucket_of_slack_past_the_end() {
    // 364 days cut every 30 days: 13 buckets begin within the window, and one more follows.
    assert_eq!(PassportEntity::count_buckets(1675728000, 1707177600, 2592000), Some(14));
    assert_eq!(PassportEntity::count_buckets(0, 0, 10), Some(2));
    assert_eq!(PassportEntity::count_buckets(0, 9, 10), Some(2));
    assert_eq!(PassportEntity::count_buckets(0, 10, 10), Some(3));
    assert_eq!(PassportEntity::count_buckets(5, 10, 10), Some(2));
}

#[test]
fn count_of_a_window_that_ends_before_it_starts() {
    assert_eq!(PassportEntity::count_buckets(10, 0, 10), Some(1));
    assert_eq!(PassportEntity::count_buckets(11, 0, 10), Some(0));
    assert_eq!(PassportEntity::count_buckets(1000, 0, 10), Some(0));
}

#[test]
fn count_refuses_windows_that_are_not_valid() {
    assert_eq!(PassportEntity::count_buckets(0, 100, 0), None);
    assert_eq!(PassportEntity::count_buckets(0, 100, -1), None);
    let most = MAX_BUCKETS as i64;
    assert_eq!(PassportEntity::count_buckets(0, most - 2, 1), Some(MAX_BUCKETS));
    assert_eq!(PassportEntity::count_buckets(0, most - 1, 1), None);
    assert_eq!(PassportEntity::count_buckets(i64::MIN, i64::MAX, 1), None);
    assert_eq!(PassportEntity::count_buckets(i64::MAX - 5, i64::MAX, 10), None);
    assert_eq!(PassportEntity::count_buckets(i64::MIN, i64::MIN + 5, 10), None);
}
