use flarestats::scheduler::parse_interval_ms;
use flarestats::settings::{check_config, parse_settings, Settings};

#[test]
fn test_settings_default_exclude_bots_true() {
    let settings = Settings::default();
    assert!(settings.exclude_bots);
}

#[test]
fn test_settings_default_fields() {
    let settings = Settings::default();
    assert_eq!(settings.token, "");
    assert_eq!(settings.account_id, "");
    assert_eq!(settings.period, "");
    assert!(settings.exclude_bots);
}

#[test]
fn test_settings_deserialize_missing_exclude_bots_defaults_true() {
    let json = r#"{"token":"t","account_id":"a","period":"24h"}"#;
    let settings: Settings = parse_settings(json).unwrap();
    assert!(settings.exclude_bots);
}

#[test]
fn test_settings_deserialize_explicit_exclude_bots_false() {
    let json = r#"{"token":"t","account_id":"a","period":"24h","exclude_bots":false}"#;
    let settings: Settings = parse_settings(json).unwrap();
    assert!(!settings.exclude_bots);
}

#[test]
fn test_settings_deserialize_missing_refresh_interval_defaults() {
    let json = r#"{"token":"t","account_id":"a","period":"24h"}"#;
    let settings: Settings = parse_settings(json).unwrap();
    assert_eq!(settings.refresh_interval, "15m");
}

#[test]
fn test_settings_deserialize_reads_all_fields() {
    let json = r#"{"token":"tok","account_id":"acct","period":"7d","exclude_bots":true,"theme":"dark","refresh_interval":"60m"}"#;
    let settings = parse_settings(json).unwrap();
    assert_eq!(settings.token, "tok");
    assert_eq!(settings.account_id, "acct");
    assert_eq!(settings.period, "7d");
    assert!(settings.exclude_bots);
    assert_eq!(settings.theme, "dark");
    assert_eq!(settings.refresh_interval, "60m");
}

#[test]
fn test_settings_deserialize_missing_token_is_error() {
    let json = r#"{"account_id":"a","period":"24h"}"#;
    assert!(parse_settings(json).is_err());
}

#[test]
fn test_settings_deserialize_not_json_is_error() {
    assert!(parse_settings("not json at all").is_err());
}

#[test]
fn test_settings_deserialize_wrong_type_is_error() {
    let json = r#"{"token":"t","account_id":"a","period":"24h","exclude_bots":1}"#;
    assert!(parse_settings(json).is_err());
    let json2 = r#"{"token":"t","account_id":"a","period":"24h","theme":false}"#;
    assert!(parse_settings(json2).is_err());
}

#[test]
fn test_initial_settings_selects_day_period() {
    let s = flarestats::settings::initial_settings();
    assert_eq!(s.period, "24h");
    assert_eq!(s.token, "");
    assert!(s.exclude_bots);
    assert_eq!(s.refresh_interval, "15m");
}

#[test]
fn test_parse_interval_ms_known_values() {
    assert_eq!(parse_interval_ms("5m"), 300_000);
    assert_eq!(parse_interval_ms("15m"), 900_000);
    assert_eq!(parse_interval_ms("60m"), 3_600_000);
}

#[test]
fn test_parse_interval_ms_unknown_defaults_to_15m() {
    assert_eq!(parse_interval_ms("unknown"), 900_000);
    assert_eq!(parse_interval_ms(""), 900_000);
}

#[test]
fn test_check_config_rejects_empty_credentials() {
    let mut s = Settings::default();
    s.period = "24h".to_string();
    let err = check_config(&s).unwrap_err();
    assert_eq!(err, "Please configure API token and Account ID in settings");
    s.token = "t".to_string();
    assert!(check_config(&s).is_err());
    s.account_id = "a".to_string();
    assert!(check_config(&s).is_ok());
}
