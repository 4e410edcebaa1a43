use headless_rss::schedule::{
    compute_next_update_interval, next_update_time, ONE_DAY, THIRTY_MINUTES, TWELVE_HOURS,
};

#[test]
fn compute_next_update_interval_daily_when_feed_is_sparse() {
    // 0.1 articles per day (one in ten days) and no articles at all.
    let with_negative_jitter = compute_next_update_interval(1, 10, -THIRTY_MINUTES);
    let with_positive_jitter = compute_next_update_interval(0, 1, THIRTY_MINUTES);

    assert_eq!(with_negative_jitter, ONE_DAY - THIRTY_MINUTES);
    assert_eq!(with_positive_jitter, ONE_DAY + THIRTY_MINUTES);
}

#[test]
fn compute_next_update_interval_uses_cap_for_recent_activity() {
    // One article in the last seven days.
    let interval = compute_next_update_interval(1, 7, 0);
    assert_eq!(interval, TWELVE_HOURS);
}

#[test]
fn compute_next_update_interval_scales_with_high_activity() {
    // Ten articles per day.
    let interval = compute_next_update_interval(10, 1, 0);
    assert_eq!(interval, 2_160);
}

#[test]
fn next_update_time_uses_weekly_rate() {
    // Seventy articles in a week are ten a day: poll every 36 minutes.
    assert_eq!(next_update_time(1_000, 70, 0), 1_000 + 2_160);
    // No article in a week: daily, with the clamped jitter.
    assert_eq!(next_update_time(1_000, 0, 5_000), 1_000 + ONE_DAY + THIRTY_MINUTES);
}
