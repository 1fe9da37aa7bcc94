use armada::config::{get_rate_limit, get_retries, get_timeout, get_listening_port,
    get_output_format, check_stream, get_source_ip_addresses};
use armada::parse::ConfigError;
use armada::fmt::OutputFormat;
use armada::hosts::HostAddr;

#[test]
fn rate_limit_defaults_to_ten_thousand() {
    assert_eq!(get_rate_limit(None, false), Ok(Some(10_000)));
}

#[test]
fn rate_limit_zero_means_unlimited() {
    assert_eq!(get_rate_limit(Some("0"), false), Ok(None));
}

#[test]
fn rate_limit_full_speed_flag_wins() {
    assert_eq!(get_rate_limit(Some("5000"), true), Ok(None));
    assert_eq!(get_rate_limit(None, true), Ok(None));
}

#[test]
fn rate_limit_explicit_value() {
    assert_eq!(get_rate_limit(Some("2500"), false), Ok(Some(2500)));
}

#[test]
fn rate_limit_rejects_garbage() {
    assert_eq!(get_rate_limit(Some("fast"), false), Err(ConfigError::MalformedNumber));
    assert_eq!(get_rate_limit(Some(""), false), Err(ConfigError::MalformedNumber));
}

#[test]
fn retries_default_and_full_speed() {
    assert_eq!(get_retries(None, false), Ok(2));
    assert_eq!(get_retries(None, true), Ok(0));
    assert_eq!(get_retries(Some("5"), false), Ok(5));
    assert_eq!(get_retries(Some("5"), true), Ok(5));
    assert_eq!(get_retries(Some("300"), false), Err(ConfigError::MalformedNumber));
}

#[test]
fn timeout_default_and_parse() {
    assert_eq!(get_timeout(None), Ok(1000));
    assert_eq!(get_timeout(Some("250")), Ok(250));
    assert_eq!(get_timeout(Some("soon")), Err(ConfigError::MalformedNumber));
}

#[test]
fn listening_port_parse_and_random_fallback() {
    assert_eq!(get_listening_port(Some("51000")), Ok(51000));
    assert_eq!(get_listening_port(Some("70000")), Err(ConfigError::MalformedNumber));
    let p = get_listening_port(None).unwrap();
    assert!((50_000..60_000).contains(&p));
}

#[test]
fn output_format_names() {
    assert_eq!(get_output_format("csv"), OutputFormat::Csv);
    assert_eq!(get_output_format("CSV"), OutputFormat::Csv);
    assert_eq!(get_output_format("json"), OutputFormat::Json);
    assert_eq!(get_output_format("JSON"), OutputFormat::Json);
    assert_eq!(get_output_format("default"), OutputFormat::Line);
    assert_eq!(get_output_format("anything"), OutputFormat::Line);
}

#[test]
fn streaming_needs_quiet_or_pipe() {
    assert!(check_stream(true, false, true).is_err());
    assert!(check_stream(true, true, true).is_ok());
    assert!(check_stream(true, false, false).is_ok());
    assert!(check_stream(false, false, true).is_ok());
}

#[test]
fn source_ips_bare_addresses_only() {
    let ok = get_source_ip_addresses(&vec!["10.0.0.99".to_string(), "::1".to_string()]).unwrap();
    assert_eq!(ok, vec![HostAddr::V4(0x0A000063), HostAddr::V6(1)]);
    assert!(get_source_ip_addresses(&vec!["10.0.0.0/24".to_string()]).is_err());
    assert!(get_source_ip_addresses(&vec!["bogus".to_string()]).is_err());
}
