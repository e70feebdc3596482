//! Gap-filling of sparse time series: every bucket of the resolved range
//! appears in the output, absent buckets as zeroes.
use crate::calendar::{date_chars, date_value, datetime_chars, datetime_value, format_date,
    format_datetime, parse_date_prefix, parse_datetime, valid_date_prefix, valid_datetime_chars,
    MAX_RANGE_EPOCH};
use crate::text::str_eq;
use vstd::prelude::*;

verus! {

/// One bucket of a site's time series.
#[derive(Clone, Debug)]
pub struct SeriesPoint {
    pub timestamp: String,
    pub visits: u64,
    pub page_views: u64,
}

/// The instant a timestamp denotes, or zero when it denotes none; the
/// fallback the filler uses for an unreadable range bound.
pub open spec fn datetime_or_zero(s: Seq<char>) -> int {
    if valid_datetime_chars(s) {
        datetime_value(s)
    } else {
        0
    }
}

/// The midnight instant a date prefix denotes, or zero when it denotes
/// none.
pub open spec fn date_or_zero(s: Seq<char>) -> int {
    if valid_date_prefix(s) {
        date_value(s)
    } else {
        0
    }
}

/// How many buckets of a given width the closed range `s ..= e` holds.
pub open spec fn bucket_count(s: int, e: int, step: int) -> int {
    if s <= e {
        (e - s) / step + 1
    } else {
        0
    }
}

/// The pair recorded under the first entry whose key matches, or zeroes
/// when no entry matches.
pub open spec fn raw_lookup(data: Seq<(String, (u64, u64))>, k: Seq<char>) -> (u64, u64)
    decreases data.len(),
{
    if data.len() == 0 {
        (0, 0)
    } else if data[0].0@ == k {
        data[0].1
    } else {
        raw_lookup(data.drop_first(), k)
    }
}

/// The view of a raw bucket mapping.
pub open spec fn raw_view(s: Seq<(String, (u64, u64))>) -> Seq<(Seq<char>, (u64, u64))> {
    Seq::new(s.len(), |i: int| (s[i].0@, s[i].1))
}

/// Lookups depend only on the view of the mapping: two mappings with the
/// same keys and pairs, in the same order, look everything up alike.
pub proof fn lemma_raw_lookup_by_view(
    a: Seq<(String, (u64, u64))>,
    b: Seq<(String, (u64, u64))>,
    k: Seq<char>,
)
    requires
        raw_view(a) == raw_view(b),
    ensures
        raw_lookup(a, k) == raw_lookup(b, k),
    decreases a.len(),
{
    assert(raw_view(a).len() == a.len() && raw_view(b).len() == b.len());
    if a.len() > 0 {
        assert(raw_view(a)[0] == (a[0].0@, a[0].1));
        assert(raw_view(b)[0] == (b[0].0@, b[0].1));
        assert(raw_view(a.drop_first()) =~= raw_view(a).drop_first());
        assert(raw_view(b.drop_first()) =~= raw_view(b).drop_first());
        lemma_raw_lookup_by_view(a.drop_first(), b.drop_first(), k);
    }
}

/// Every point of `r` carries the timestamp of its hourly bucket and the
/// raw pair recorded under that key.
pub open spec fn hourly_points_ok(
    r: Seq<SeriesPoint>,
    s0: int,
    data: Seq<(String, (u64, u64))>,
) -> bool {
    forall|i: int|
        0 <= i < r.len() ==> r[i].timestamp@ == datetime_chars(s0 + 3600 * i) && (
        r[i].visits,
        r[i].page_views,
        ) == raw_lookup(data, datetime_chars(s0 + 3600 * i))
}

/// Every point of `r` carries the date of its daily bucket and the raw
/// pair recorded under that key.
pub open spec fn daily_points_ok(
    r: Seq<SeriesPoint>,
    s0: int,
    data: Seq<(String, (u64, u64))>,
) -> bool {
    forall|i: int|
        0 <= i < r.len() ==> r[i].timestamp@ == date_chars(s0 + 86400 * i) && (
        r[i].visits,
        r[i].page_views,
        ) == raw_lookup(data, date_chars(s0 + 86400 * i))
}

/// Finds the first entry whose key equals `key`.
fn lookup_raw(data: &Vec<(String, (u64, u64))>, key: &String) -> (r: (u64, u64))
    ensures
        r == raw_lookup(data@, key@),
{
    let n = data.len();
    let mut i: usize = 0;
    proof {
        assert(data@.skip(0) =~= data@);
    }
    while i < n
        invariant
            i <= n == data@.len(),
            raw_lookup(data@, key@) == raw_lookup(data@.skip(i as int), key@),
        decreases n - i,
    {
        proof {
            assert(data@.skip(i as int)[0] == data@[i as int]);
        }
        if str_eq(data[i].0.as_str(), key.as_str()) {
            return data[i].1;
        }
        proof {
            assert(data@.skip(i as int).drop_first() =~= data@.skip(i as int + 1));
        }
        i = i + 1;
    }
    (0, 0)
}

/// Walks the closed hourly range, one bucket an hour.
fn fill_hourly(s0: u64, e0: u64, data: &Vec<(String, (u64, u64))>) -> (r: Vec<SeriesPoint>)
    requires
        s0 <= MAX_RANGE_EPOCH,
        e0 <= MAX_RANGE_EPOCH,
    ensures
        r@.len() == bucket_count(s0 as int, e0 as int, 3600),
        hourly_points_ok(r@, s0 as int, data@),
{
    let mut out: Vec<SeriesPoint> = Vec::new();
    let mut cur = s0;
    while cur <= e0
        invariant
            s0 <= MAX_RANGE_EPOCH,
            e0 <= MAX_RANGE_EPOCH,
            s0 <= cur,
            cur == s0 || cur - 3600 <= e0,
            (cur - s0) % 3600 == 0,
            out@.len() == (cur - s0) / 3600,
            hourly_points_ok(out@, s0 as int, data@),
        decreases e0 + 3600 - cur,
    {
        proof {
            assert(s0 as int + 3600 * (out@.len() as int) == cur as int);
        }
        let key = format_datetime(cur);
        let (v, pv) = lookup_raw(data, &key);
        out.push(SeriesPoint { timestamp: key, visits: v, page_views: pv });
        cur = cur + 3600;
    }
    proof {
        if s0 <= e0 {
            assert(out@.len() == bucket_count(s0 as int, e0 as int, 3600));
        } else {
            assert(cur == s0);
        }
    }
    out
}

/// Walks the closed daily range, one bucket a calendar day.
fn fill_daily(s0: u64, e0: u64, data: &Vec<(String, (u64, u64))>) -> (r: Vec<SeriesPoint>)
    requires
        s0 <= MAX_RANGE_EPOCH,
        e0 <= MAX_RANGE_EPOCH,
    ensures
        r@.len() == bucket_count(s0 as int, e0 as int, 86400),
        daily_points_ok(r@, s0 as int, data@),
{
    let mut out: Vec<SeriesPoint> = Vec::new();
    let mut cur = s0;
    while cur <= e0
        invariant
            s0 <= MAX_RANGE_EPOCH,
            e0 <= MAX_RANGE_EPOCH,
            s0 <= cur,
            cur == s0 || cur - 86400 <= e0,
            (cur - s0) % 86400 == 0,
            out@.len() == (cur - s0) / 86400,
            daily_points_ok(out@, s0 as int, data@),
        decreases e0 + 86400 - cur,
    {
        proof {
            assert(s0 as int + 86400 * (out@.len() as int) == cur as int);
        }
        let key = format_date(cur);
        let (v, pv) = lookup_raw(data, &key);
        out.push(SeriesPoint { timestamp: key, visits: v, page_views: pv });
        cur = cur + 86400;
    }
    proof {
        if s0 <= e0 {
            assert(out@.len() == bucket_count(s0 as int, e0 as int, 86400));
        } else {
            assert(cur == s0);
        }
    }
    out
}

/// Materializes the complete bucket sequence of the closed range
/// `start ..= end` at the granularity the dimension name denotes
/// (`datetimeHour` hourly, anything else daily), stepping one hour or one
/// calendar day at a time.  A bound that is not a readable timestamp is
/// taken as the epoch itself; a range whose end lies before its start
/// yields an empty sequence.  Buckets missing from `data` come out as
/// zero pairs, so an empty mapping yields an all-zero sequence.
#[verifier::rlimit(60)]
pub fn fill_series_gaps(
    start: &str,
    end: &str,
    ts_field: &str,
    data: &Vec<(String, (u64, u64))>,
) -> (r: Vec<SeriesPoint>)
    ensures
        ts_field@ == "datetimeHour"@ ==> r@.len() == bucket_count(
            datetime_or_zero(start@),
            datetime_or_zero(end@),
            3600,
        ) && hourly_points_ok(r@, datetime_or_zero(start@), data@),
        ts_field@ != "datetimeHour"@ ==> r@.len() == bucket_count(
            date_or_zero(start@),
            date_or_zero(end@),
            86400,
        ) && daily_points_ok(r@, date_or_zero(start@), data@),
        data@.len() == 0 ==> forall|i: int|
            0 <= i < r@.len() ==> r@[i].visits == 0 && r@[i].page_views == 0,
{
    let out: Vec<SeriesPoint>;
    if str_eq(ts_field, "datetimeHour") {
        let s0 = match parse_datetime(start) {
            Some(e) => e,
            None => 0,
        };
        let e0 = match parse_datetime(end) {
            Some(e) => e,
            None => 0,
        };
        out = fill_hourly(s0, e0, data);
        proof {
            if data@.len() == 0 {
                assert forall|i: int| 0 <= i < out@.len() implies out@[i].visits == 0
                    && out@[i].page_views == 0 by {
                    assert((out@[i].visits, out@[i].page_views) == raw_lookup(
                        data@,
                        datetime_chars(s0 as int + 3600 * i),
                    ));
                }
            }
        }
    } else {
        let s0 = match parse_date_prefix(start) {
            Some(e) => e,
            None => 0,
        };
        let e0 = match parse_date_prefix(end) {
            Some(e) => e,
            None => 0,
        };
        out = fill_daily(s0, e0, data);
        proof {
            if data@.len() == 0 {
                assert forall|i: int| 0 <= i < out@.len() implies out@[i].visits == 0
                    && out@[i].page_views == 0 by {
                    assert((out@[i].visits, out@[i].page_views) == raw_lookup(
                        data@,
                        date_chars(s0 as int + 86400 * i),
                    ));
                }
            }
        }
    }
    out
}

} // verus!
