use flarestats::series::fill_series_gaps;

#[test]
fn test_fill_series_gaps_hourly_fills_missing() {
    let data: Vec<(String, (u64, u64))> = vec![
        ("2024-01-15T00:00:00Z".to_string(), (10, 20)),
        ("2024-01-15T02:00:00Z".to_string(), (30, 40)),
    ];
    let series = fill_series_gaps(
        "2024-01-15T00:00:00Z",
        "2024-01-15T03:00:00Z",
        "datetimeHour",
        &data,
    );
    assert_eq!(series.len(), 4); // 00, 01, 02, 03
    assert_eq!(series[0].visits, 10);
    assert_eq!(series[0].page_views, 20);
    assert_eq!(series[1].visits, 0); // gap filled
    assert_eq!(series[1].page_views, 0);
    assert_eq!(series[2].visits, 30);
    assert_eq!(series[2].page_views, 40);
    assert_eq!(series[3].visits, 0); // gap filled
}

#[test]
fn test_fill_series_gaps_daily_fills_missing() {
    let data: Vec<(String, (u64, u64))> = vec![
        ("2024-01-15".to_string(), (100, 200)),
        ("2024-01-17".to_string(), (300, 400)),
    ];
    let series = fill_series_gaps(
        "2024-01-15T00:00:00Z",
        "2024-01-18T00:00:00Z",
        "date",
        &data,
    );
    assert_eq!(series.len(), 4); // 15, 16, 17, 18
    assert_eq!(series[0].visits, 100);
    assert_eq!(series[1].visits, 0); // gap filled
    assert_eq!(series[2].visits, 300);
    assert_eq!(series[3].visits, 0);
}

#[test]
fn test_fill_series_gaps_empty_data() {
    let data: Vec<(String, (u64, u64))> = Vec::new();
    let series = fill_series_gaps(
        "2024-01-15T00:00:00Z",
        "2024-01-15T02:00:00Z",
        "datetimeHour",
        &data,
    );
    assert_eq!(series.len(), 3);
    assert!(series.iter().all(|p| p.visits == 0 && p.page_views == 0));
}

#[test]
fn test_fill_series_gaps_full_data_no_gaps() {
    let data: Vec<(String, (u64, u64))> = vec![
        ("2024-01-15".to_string(), (1, 2)),
        ("2024-01-16".to_string(), (3, 4)),
    ];
    let series = fill_series_gaps(
        "2024-01-15T00:00:00Z",
        "2024-01-16T23:59:59Z",
        "date",
        &data,
    );
    assert_eq!(series.len(), 2);
    assert_eq!(series[0].visits, 1);
    assert_eq!(series[1].visits, 3);
}

#[test]
fn test_fill_series_gaps_timestamps_are_bucket_keys() {
    let data: Vec<(String, (u64, u64))> = Vec::new();
    let series = fill_series_gaps(
        "2024-02-28T22:00:00Z",
        "2024-02-29T01:00:00Z",
        "datetimeHour",
        &data,
    );
    // crosses a leap-year February boundary
    assert_eq!(series.len(), 4);
    assert_eq!(series[0].timestamp, "2024-02-28T22:00:00Z");
    assert_eq!(series[1].timestamp, "2024-02-28T23:00:00Z");
    assert_eq!(series[2].timestamp, "2024-02-29T00:00:00Z");
    assert_eq!(series[3].timestamp, "2024-02-29T01:00:00Z");
}

#[test]
fn test_fill_series_gaps_reversed_range_is_empty() {
    let data: Vec<(String, (u64, u64))> = vec![("2024-01-15".to_string(), (1, 2))];
    let series = fill_series_gaps(
        "2024-01-18T00:00:00Z",
        "2024-01-15T00:00:00Z",
        "date",
        &data,
    );
    assert_eq!(series.len(), 0);
}

#[test]
fn test_fill_series_gaps_malformed_key_is_ignored() {
    let data: Vec<(String, (u64, u64))> = vec![
        ("2024-1-15".to_string(), (7, 7)),
        ("2024-01-15".to_string(), (5, 6)),
    ];
    let series = fill_series_gaps(
        "2024-01-15T00:00:00Z",
        "2024-01-15T00:00:00Z",
        "date",
        &data,
    );
    assert_eq!(series.len(), 1);
    assert_eq!(series[0].visits, 5);
    assert_eq!(series[0].page_views, 6);
}
