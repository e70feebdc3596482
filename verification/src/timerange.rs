//! Resolving a requested period token into a concrete half-open time
//! range and the bucket granularity to query at.
use crate::calendar::{datetime_chars, format_datetime};
use crate::text::str_eq;
use vstd::prelude::*;

verus! {

/// Smallest clock reading the resolver works from: thirty days past the
/// epoch, so every subtraction below stays non-negative.
pub const MIN_NOW_EPOCH: u64 = 2592000;

/// Largest clock reading the resolver works from: the last second of the
/// supported year window.
pub const MAX_NOW_EPOCH: u64 = 7258118399;

/// The bucket width of a resolved range.
#[derive(PartialEq, Eq, Structural, Clone, Copy, Debug)]
pub enum Granularity {
    Hourly,
    Daily,
}

/// A resolved query range: instants in seconds since the Unix epoch.
#[derive(Clone, Copy, Debug)]
pub struct TimeRange {
    pub start: u64,
    pub end: u64,
    pub granularity: Granularity,
}

/// A clock reading forced into the supported window.
pub open spec fn clamped_epoch(t: int) -> int {
    if t < MIN_NOW_EPOCH as int {
        MIN_NOW_EPOCH as int
    } else if t > MAX_NOW_EPOCH as int {
        MAX_NOW_EPOCH as int
    } else {
        t
    }
}

/// The start instant a period token resolves to at a given time: one day
/// back truncated to the hour for `24h`, six or twenty-nine days back
/// truncated to midnight for `7d` and for everything else.
pub open spec fn period_start(period: Seq<char>, now: int) -> int {
    if period == "24h"@ {
        (now - 86400) / 3600 * 3600
    } else if period == "7d"@ {
        (now - 518400) / 86400 * 86400
    } else {
        (now - 2505600) / 86400 * 86400
    }
}

/// Forces a raw clock reading into the supported window.
pub fn clamp_now(t: i64) -> (r: u64)
    ensures
        r as int == clamped_epoch(t as int),
        MIN_NOW_EPOCH <= r <= MAX_NOW_EPOCH,
{
    if t < MIN_NOW_EPOCH as i64 {
        MIN_NOW_EPOCH
    } else if t > MAX_NOW_EPOCH as i64 {
        MAX_NOW_EPOCH
    } else {
        t as u64
    }
}

/// Relies on `chrono::Utc::now` and `chrono::DateTime::timestamp` for the
/// current time as whole seconds since the Unix epoch.  Nothing is assumed
/// of the value: the caller forces it into the supported window.
#[verifier::external_body]
fn now_epoch_seconds() -> i64 {
    chrono::Utc::now().timestamp()
}

/// Resolves a period token at a given time.  Unrecognized tokens fall back
/// to the thirty-day range by design.  The range is sound for any clock
/// reading of the supported window: an hourly start lies on an hour, a
/// daily start on a UTC midnight, and the span from start to end stays
/// within a bucket of the nominal period length.
pub fn resolve_time_range(period: &str, now: u64) -> (r: TimeRange)
    requires
        MIN_NOW_EPOCH <= now <= MAX_NOW_EPOCH,
    ensures
        r.end == now,
        r.start as int == period_start(period@, now as int),
        (r.granularity == Granularity::Hourly) <==> (period@ == "24h"@),
        period@ == "24h"@ ==> r.start % 3600 == 0 && 23 * 3600 <= r.end - r.start <= 25 * 3600,
        period@ == "7d"@ ==> r.start % 86400 == 0 && 5 * 86400 <= r.end - r.start <= 7 * 86400,
        period@ != "24h"@ && period@ != "7d"@ ==> r.start % 86400 == 0 && 28 * 86400 <= r.end
            - r.start <= 30 * 86400,
{
    proof {
        reveal_strlit("24h");
        reveal_strlit("7d");
        assert("24h"@.len() == 3);
        assert("7d"@.len() == 2);
        assert("24h"@ != "7d"@);
    }
    if str_eq(period, "24h") {
        let start = (now - 86400) / 3600 * 3600;
        proof {
            assert(start <= now - 86400 < start + 3600);
        }
        TimeRange { start, end: now, granularity: Granularity::Hourly }
    } else if str_eq(period, "7d") {
        let start = (now - 518400) / 86400 * 86400;
        proof {
            assert(start <= now - 518400 < start + 86400);
        }
        TimeRange { start, end: now, granularity: Granularity::Daily }
    } else {
        let start = (now - 2505600) / 86400 * 86400;
        proof {
            assert(start <= now - 2505600 < start + 86400);
        }
        TimeRange { start, end: now, granularity: Granularity::Daily }
    }
}

/// The time-series dimension name the remote API uses for a granularity.
pub fn ts_field_name(g: Granularity) -> (r: &'static str)
    ensures
        g == Granularity::Hourly ==> r@ == "datetimeHour"@,
        g == Granularity::Daily ==> r@ == "date"@,
{
    match g {
        Granularity::Hourly => "datetimeHour",
        Granularity::Daily => "date",
    }
}

/// Resolves a period token at the current time, rendered as the timestamp
/// pair and dimension name the remote API takes.  The start has zeroed
/// minutes and seconds (and, daily, a zeroed hour); the end is the clock
/// reading itself, untruncated.
pub fn get_time_range(period: &str) -> (r: (String, String, &'static str))
    ensures
        (r.2@ == "datetimeHour"@) <==> (period@ == "24h"@),
        period@ != "24h"@ ==> r.2@ == "date"@,
        exists|now: u64|
            MIN_NOW_EPOCH <= now <= MAX_NOW_EPOCH && r.0@ == datetime_chars(
                period_start(period@, now as int),
            ) && r.1@ == datetime_chars(now as int),
{
    proof {
        reveal_strlit("datetimeHour");
        reveal_strlit("date");
        assert("datetimeHour"@.len() == 12);
        assert("date"@.len() == 4);
        assert("datetimeHour"@ != "date"@);
    }
    let now = clamp_now(now_epoch_seconds());
    let range = resolve_time_range(period, now);
    let start_s = format_datetime(range.start);
    let end_s = format_datetime(range.end);
    let field = ts_field_name(range.granularity);
    proof {
        assert(MIN_NOW_EPOCH <= now <= MAX_NOW_EPOCH && start_s@ == datetime_chars(
            period_start(period@, now as int),
        ) && end_s@ == datetime_chars(now as int));
    }
    (start_s, end_s, field)
}

} // verus!
