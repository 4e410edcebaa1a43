//! Dynamic refresh scheduling of regular feeds.

use rand::Rng;
use vstd::prelude::*;

verus! {

/// One day in seconds.
pub const ONE_DAY: i64 = 86_400;

/// Jitter window for sparse feeds, so that many feeds do not refresh at the same moment.
pub const THIRTY_MINUTES: i64 = 1_800;

/// Longest interval between two refreshes of an active feed.
pub const TWELVE_HOURS: i64 = 43_200;

/// A feed is sparse when it published at most 0.1 articles per day, that is
/// `articles / days <= 1 / 10`.
pub open spec fn is_sparse(articles: nat, days: nat) -> bool {
    10 * articles <= days
}

/// The jitter, clamped to plus or minus thirty minutes.
pub open spec fn clamped_jitter(jitter: int) -> int {
    if jitter < -THIRTY_MINUTES {
        -THIRTY_MINUTES as int
    } else if jitter > THIRTY_MINUTES {
        THIRTY_MINUTES as int
    } else {
        jitter
    }
}

/// `ONE_DAY / (articles / days) / 4`, rounded half away from zero, capped at twelve hours:
/// an active feed is polled four times as often as it publishes.
pub open spec fn active_interval(articles: nat, days: nat) -> int {
    let rounded = active_interval_raw(articles, days);
    if rounded < TWELVE_HOURS {
        rounded
    } else {
        TWELVE_HOURS as int
    }
}

/// `ONE_DAY / (articles / days) / 4`, rounded half away from zero.
pub open spec fn active_interval_raw(articles: nat, days: nat) -> int {
    (2 * ONE_DAY * days + 4 * articles) / ((8 * articles) as int)
}

/// The refresh interval for a feed that published `articles` articles in `days` days.
pub open spec fn next_update_interval(articles: nat, days: nat, jitter: int) -> int {
    if is_sparse(articles, days) {
        ONE_DAY + clamped_jitter(jitter)
    } else {
        active_interval(articles, days)
    }
}

/// Computes the next refresh interval in seconds from the publishing rate `articles / days`:
/// sparse feeds (at most 0.1 articles per day) are refreshed daily, plus or minus up to thirty
/// minutes of jitter; active feeds four times as often as they publish, at least every twelve
/// hours.
pub fn compute_next_update_interval(articles: u64, days: u64, jitter_seconds: i64) -> (res: i64)
    requires
        days > 0,
    ensures
        res == next_update_interval(articles as nat, days as nat, jitter_seconds as int),
{
    if (articles as u128) * 10 <= days as u128 {
        let j = if jitter_seconds < -THIRTY_MINUTES {
            -THIRTY_MINUTES
        } else if jitter_seconds > THIRTY_MINUTES {
            THIRTY_MINUTES
        } else {
            jitter_seconds
        };
        return ONE_DAY + j;
    }
    let d: u128 = days as u128;
    let a: u128 = articles as u128;
    assert(d <= u64::MAX && a <= u64::MAX);
    assert(172_800 * d <= 172_800 * (u64::MAX as u128)) by (nonlinear_arith)
        requires
            d <= u64::MAX,
    ;
    let numerator: u128 = 172_800 * d + 4 * a;
    let denominator: u128 = 8 * a;
    let rounded: u128 = numerator / denominator;
    assert(rounded as int == active_interval_raw(articles as nat, days as nat));
    if rounded < 43_200 {
        rounded as i64
    } else {
        TWELVE_HOURS
    }
}

/// A random jitter in seconds, drawn from `rand::rng().random_range(-1800..=1800)`. The result
/// depends on chance; only its range is stated, as the crate documents it.
#[verifier::external_body]
fn random_jitter_seconds() -> (res: i64)
    ensures
        -THIRTY_MINUTES <= res <= THIRTY_MINUTES,
{
    rand::rng().random_range(-THIRTY_MINUTES..=THIRTY_MINUTES)
}

/// The next refresh time of a feed that published `weekly_count` articles in the last seven days.
pub fn next_update_time(now_ts: i64, weekly_count: u64, jitter_seconds: i64) -> (res: i64)
    requires
        now_ts <= i64::MAX - (ONE_DAY + THIRTY_MINUTES),
    ensures
        res == now_ts + next_update_interval(weekly_count as nat, 7, jitter_seconds as int),
{
    let interval = compute_next_update_interval(weekly_count, 7, jitter_seconds);
    proof {
        lemma_interval_bounds(weekly_count as nat, 7, jitter_seconds as int);
    }
    now_ts + interval
}

/// The next refresh time of a feed that published `weekly_count` articles in the last seven
/// days, with a fresh random jitter: an active feed's time is fixed by its rate, a sparse feed's
/// lies within thirty minutes of a day from now.
pub fn calculate_next_update_time(now_ts: i64, weekly_count: u64) -> (res: i64)
    requires
        now_ts <= i64::MAX - (ONE_DAY + THIRTY_MINUTES),
    ensures
        exists|j: int|
            -THIRTY_MINUTES <= j <= THIRTY_MINUTES && res == now_ts + next_update_interval(
                weekly_count as nat,
                7,
                j,
            ),
        !is_sparse(weekly_count as nat, 7) ==> res == now_ts + active_interval(
            weekly_count as nat,
            7,
        ),
        is_sparse(weekly_count as nat, 7) ==> now_ts + ONE_DAY - THIRTY_MINUTES <= res <= now_ts
            + ONE_DAY + THIRTY_MINUTES,
{
    let jitter = random_jitter_seconds();
    next_update_time(now_ts, weekly_count, jitter)
}

proof fn lemma_interval_bounds(articles: nat, days: nat, jitter: int)
    requires
        days > 0,
    ensures
        0 <= next_update_interval(articles, days, jitter) <= ONE_DAY + THIRTY_MINUTES,
{
    if !is_sparse(articles, days) {
        assert(articles > 0);
        assert((2 * ONE_DAY * days + 4 * articles) / ((8 * articles) as int) >= 0) by (nonlinear_arith)
            requires
                articles > 0,
                days > 0,
        ;
    }
}

/// Sparse feeds are refreshed about once a day: within thirty minutes of a day.
pub proof fn law_sparse_feeds_refresh_daily(articles: nat, days: nat, jitter: int)
    requires
        days > 0,
        is_sparse(articles, days),
    ensures
        ONE_DAY - THIRTY_MINUTES <= next_update_interval(articles, days, jitter) <= ONE_DAY
            + THIRTY_MINUTES,
{
}

/// Active feeds are refreshed at least every twelve hours.
pub proof fn law_active_feeds_refresh_within_twelve_hours(articles: nat, days: nat, jitter: int)
    requires
        days > 0,
        !is_sparse(articles, days),
    ensures
        0 <= next_update_interval(articles, days, jitter) <= TWELVE_HOURS,
{
    lemma_interval_bounds(articles, days, jitter);
}

/// Among active feeds observed over the same window, one that publishes more is refreshed at
/// least as often.
pub proof fn law_busier_feeds_refresh_sooner(a1: nat, a2: nat, days: nat, jitter: int)
    requires
        days > 0,
        !is_sparse(a1, days),
        a1 <= a2,
    ensures
        next_update_interval(a2, days, jitter) <= next_update_interval(a1, days, jitter),
{
    let n = 2 * ONE_DAY * days;
    let r1 = (n + 4 * a1) / ((8 * a1) as int);
    let r2 = (n + 4 * a2) / ((8 * a2) as int);
    assert(r2 <= r1) by (nonlinear_arith)
        requires
            n >= 0,
            a1 > 0,
            a1 <= a2,
            r1 == (n + 4 * a1) / ((8 * a1) as int),
            r2 == (n + 4 * a2) / ((8 * a2) as int),
    {
        assert(r2 * (8 * a2) <= n + 4 * a2);
        assert(n + 4 * a1 < (r1 + 1) * (8 * a1));
    }
}

} // verus!
