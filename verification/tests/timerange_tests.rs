use chrono::{Duration, NaiveDateTime, Timelike};
use flarestats::timerange::{get_time_range, resolve_time_range, Granularity};

#[test]
fn test_get_time_range_24h_returns_datetime_hour() {
    let (start, end, field) = get_time_range("24h");
    assert_eq!(field, "datetimeHour");
    assert!(start.ends_with("Z"));
    assert!(end.ends_with("Z"));
    // start should be parseable and roughly 24h before end
    let start_dt = NaiveDateTime::parse_from_str(&start, "%Y-%m-%dT%H:%M:%SZ").unwrap();
    let end_dt = NaiveDateTime::parse_from_str(&end, "%Y-%m-%dT%H:%M:%SZ").unwrap();
    let diff = end_dt - start_dt;
    assert!(diff >= Duration::hours(23) && diff <= Duration::hours(25));
    // start should have minutes/seconds zeroed
    assert_eq!(start_dt.minute(), 0);
    assert_eq!(start_dt.second(), 0);
}

#[test]
fn test_get_time_range_7d_returns_date() {
    let (start, end, field) = get_time_range("7d");
    assert_eq!(field, "date");
    assert!(start.contains("T00:00:00Z"));
    let start_dt = NaiveDateTime::parse_from_str(&start, "%Y-%m-%dT%H:%M:%SZ").unwrap();
    let end_dt = NaiveDateTime::parse_from_str(&end, "%Y-%m-%dT%H:%M:%SZ").unwrap();
    let diff = end_dt - start_dt;
    assert!(diff >= Duration::days(5) && diff <= Duration::days(7));
}

#[test]
fn test_get_time_range_30d_returns_date() {
    let (start, end, field) = get_time_range("30d");
    assert_eq!(field, "date");
    assert!(start.contains("T00:00:00Z"));
    let start_dt = NaiveDateTime::parse_from_str(&start, "%Y-%m-%dT%H:%M:%SZ").unwrap();
    let end_dt = NaiveDateTime::parse_from_str(&end, "%Y-%m-%dT%H:%M:%SZ").unwrap();
    let diff = end_dt - start_dt;
    assert!(diff >= Duration::days(28) && diff <= Duration::days(30));
}

#[test]
fn test_get_time_range_unknown_period_defaults_to_30d() {
    let (start, _, field) = get_time_range("unknown");
    assert_eq!(field, "date");
    assert!(start.contains("T00:00:00Z"));
}

// 2024-01-15T10:50:45Z
const NOW: u64 = 1705315845;

#[test]
fn test_resolve_granularity_hourly_iff_24h() {
    assert!(resolve_time_range("24h", NOW).granularity == Granularity::Hourly);
    assert!(resolve_time_range("7d", NOW).granularity == Granularity::Daily);
    assert!(resolve_time_range("unrecognized", NOW).granularity == Granularity::Daily);
}

#[test]
fn test_resolve_24h_exact_bounds() {
    let r = resolve_time_range("24h", NOW);
    // one day back, truncated to the hour: 2024-01-14T10:00:00Z
    assert_eq!(r.start, 1705226400);
    assert_eq!(r.end, NOW);
    assert_eq!(r.start % 3600, 0);
}

#[test]
fn test_resolve_7d_exact_midnight() {
    let r = resolve_time_range("7d", NOW);
    // six days back at midnight: 2024-01-09T00:00:00Z
    assert_eq!(r.start, 1704758400);
    assert_eq!(r.start % 86400, 0);
    assert_eq!(r.end, NOW);
}

#[test]
fn test_resolve_30d_exact_midnight() {
    let r = resolve_time_range("30d", NOW);
    // twenty-nine days back at midnight: 2023-12-17T00:00:00Z
    assert_eq!(r.start, 1702771200);
    assert_eq!(r.start % 86400, 0);
    let span = r.end - r.start;
    assert!(span >= 28 * 86400 && span <= 30 * 86400);
}
