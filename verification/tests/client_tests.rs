use flarestats::calendar::{format_date, format_datetime, parse_date_prefix, parse_datetime};
use flarestats::client::{bearer_value, graphql_query, make_site_data, metrics_request_body,
    metrics_response, sites_response, sites_url};

#[test]
fn test_format_and_parse_datetime_round_trip() {
    // 2024-01-15T00:00:00Z
    assert_eq!(format_datetime(1705276800), "2024-01-15T00:00:00Z");
    assert_eq!(parse_datetime("2024-01-15T00:00:00Z"), Some(1705276800));
    // leap day
    assert_eq!(format_date(1709164800), "2024-02-29");
    assert_eq!(parse_date_prefix("2024-02-29T12:34:56Z"), Some(1709164800));
}

#[test]
fn test_parse_datetime_rejects_malformed() {
    assert_eq!(parse_datetime("2024-01-15"), None);
    assert_eq!(parse_datetime("2024-13-01T00:00:00Z"), None);
    assert_eq!(parse_datetime("2023-02-29T00:00:00Z"), None);
    assert_eq!(parse_datetime("2024-01-15T24:00:00Z"), None);
    assert_eq!(parse_date_prefix("2024-1-15"), None);
}

#[test]
fn test_sites_url_and_bearer() {
    assert_eq!(
        sites_url("acct42"),
        "https://api.cloudflare.com/client/v4/accounts/acct42/rum/site_info/list"
    );
    assert_eq!(bearer_value("tok"), "Bearer tok");
}

#[test]
fn test_sites_response_transport_error_message() {
    let r = sites_response(false, "401 Unauthorized", "denied");
    assert_eq!(r.unwrap_err(), "API error 401 Unauthorized: denied");
}

#[test]
fn test_sites_response_parses_entries_and_skips_incomplete() {
    let body = r#"{"result":[
        {"site_tag":"abc","ruleset":{"zone_name":"example.com"}},
        {"site_tag":"noname"},
        {"ruleset":{"zone_name":"untagged.org"}},
        {"site_tag":"xyz","ruleset":{"zone_name":"other.net"}}
    ]}"#;
    let sites = sites_response(true, "200 OK", body).unwrap();
    assert_eq!(
        sites,
        vec![
            ("example.com".to_string(), "abc".to_string()),
            ("other.net".to_string(), "xyz".to_string()),
        ]
    );
}

#[test]
fn test_sites_response_missing_result_array() {
    let r = sites_response(true, "200 OK", r#"{"success":true}"#);
    assert_eq!(r.unwrap_err(), "Invalid response: missing result array");
    assert!(sites_response(true, "200 OK", "not json").is_err());
}

#[test]
fn test_metrics_response_transport_error_message() {
    let r = metrics_response(false, "503 Service Unavailable", "");
    assert_eq!(r.unwrap_err(), "GraphQL error: 503 Service Unavailable");
}

#[test]
fn test_metrics_response_remote_errors_are_fatal() {
    let body = r#"{"errors":[{"message":"bad query"}],"data":null}"#;
    let err = metrics_response(true, "200 OK", body).unwrap_err();
    assert!(err.starts_with("GraphQL errors:"));
}

#[test]
fn test_metrics_response_extracts_totals_and_series() {
    let body = r#"{"data":{"viewer":{"accounts":[{
        "totals":[{"count":200,"sum":{"visits":100}}],
        "series":[
            {"count":20,"sum":{"visits":10},"dimensions":{"ts":"2024-01-15"}},
            {"count":40,"sum":{"visits":30},"dimensions":{"ts":"2024-01-17"}}
        ]
    }]}}}"#;
    let (visits, page_views, raw) = metrics_response(true, "200 OK", body).unwrap();
    assert_eq!(visits, 100);
    assert_eq!(page_views, 200);
    assert_eq!(
        raw,
        vec![
            ("2024-01-15".to_string(), (10, 20)),
            ("2024-01-17".to_string(), (30, 40)),
        ]
    );
}

#[test]
fn test_metrics_response_tolerates_missing_parts() {
    let (visits, page_views, raw) =
        metrics_response(true, "200 OK", r#"{"data":{"viewer":{"accounts":[]}}}"#).unwrap();
    assert_eq!((visits, page_views), (0, 0));
    assert!(raw.is_empty());
}

#[test]
fn test_metrics_response_non_u64_counts_read_as_zero() {
    let body = r#"{"data":{"viewer":{"accounts":[{
        "totals":[{"count":1.5,"sum":{"visits":-3}}],
        "series":[{"count":true,"sum":{},"dimensions":{"ts":"2024-01-15"}}]
    }]}}}"#;
    let (visits, page_views, raw) = metrics_response(true, "200 OK", body).unwrap();
    assert_eq!((visits, page_views), (0, 0));
    assert_eq!(raw, vec![("2024-01-15".to_string(), (0, 0))]);
}

#[test]
fn test_make_site_data_fills_series() {
    let raw = vec![("2024-01-15".to_string(), (100, 200))];
    let site = make_site_data(
        "example.com",
        100,
        200,
        "2024-01-15T00:00:00Z",
        "2024-01-17T00:00:00Z",
        "date",
        &raw,
    );
    assert_eq!(site.name, "example.com");
    assert_eq!(site.visits, 100);
    assert_eq!(site.page_views, 200);
    assert_eq!(site.series.len(), 3);
    assert_eq!(site.series[0].visits, 100);
    assert_eq!(site.series[1].visits, 0);
}

#[test]
fn test_graphql_query_embeds_dimension() {
    let q = graphql_query("datetimeHour");
    assert!(q.contains("dimensions { ts: datetimeHour }"));
    let q2 = graphql_query("date");
    assert!(q2.contains("dimensions { ts: date }"));
}

#[test]
fn test_metrics_request_body_escapes_strings() {
    let body = metrics_request_body(
        "acct\"quote",
        "tag\\back",
        "2024-01-15T00:00:00Z",
        "2024-01-16T00:00:00Z",
        true,
        "date",
    );
    assert!(body.contains(r#""accountTag":"acct\"quote""#));
    assert!(body.contains(r#""siteTag":"tag\\back""#));
    assert!(body.contains(r#""datetime_geq":"2024-01-15T00:00:00Z""#));
    assert!(body.contains(r#",{"bot":0}"#));
    // the query's newlines are escaped, so the body is one JSON line
    assert!(!body.contains('\n'));
    assert!(body.contains("\\n  viewer"));
    // the whole body is valid JSON
    let parsed: serde_json::Value = serde_json::from_str(&body).unwrap();
    assert_eq!(parsed["variables"]["accountTag"], "acct\"quote");
    assert_eq!(parsed["variables"]["filter"]["AND"][2]["bot"], 0);
}

#[test]
fn test_metrics_request_body_without_bot_filter() {
    let body = metrics_request_body(
        "a",
        "t",
        "2024-01-15T00:00:00Z",
        "2024-01-16T00:00:00Z",
        false,
        "date",
    );
    assert!(!body.contains("bot"));
    let parsed: serde_json::Value = serde_json::from_str(&body).unwrap();
    assert_eq!(parsed["variables"]["filter"]["AND"].as_array().unwrap().len(), 2);
}
