use armada::hosts::HostAddr;
use armada::codec::Target;
use armada::sink::ResultSink;
use armada::fmt::{OutputFormat, format_record};

fn t(last: u8, port: u16) -> Target {
    Target { host: HostAddr::V4(u32::from_be_bytes([10, 0, 0, last])), port }
}

#[test]
fn duplicate_delivery_emits_once() {
    let mut s = ResultSink::new(OutputFormat::Line, false);
    assert!(s.submit(t(1, 80)).is_none());
    // the same confirmed-open target again: nothing new is recorded
    assert!(s.submit(t(1, 80)).is_none());
    let held = s.into_held();
    assert_eq!(held, vec!["10.0.0.1:80".to_string()]);
}

#[test]
fn stream_mode_hands_records_out_immediately() {
    let mut s = ResultSink::new(OutputFormat::Line, true);
    let first = s.submit(t(1, 80));
    assert_eq!(first, Some("10.0.0.1:80".to_string()));
    let dup = s.submit(t(1, 80));
    assert_eq!(dup, None);
    assert_eq!(s.into_held(), Vec::<String>::new());
}

#[test]
fn distinct_targets_each_get_a_record() {
    let mut s = ResultSink::new(OutputFormat::Line, false);
    s.submit(t(1, 80));
    s.submit(t(1, 443));
    s.submit(t(2, 80));
    assert_eq!(
        s.into_held(),
        vec![
            "10.0.0.1:80".to_string(),
            "10.0.0.1:443".to_string(),
            "10.0.0.2:80".to_string(),
        ]
    );
}

#[test]
fn line_record_format() {
    let r = format_record(&t(1, 80), OutputFormat::Line);
    assert_eq!(r, "10.0.0.1:80");
}

#[test]
fn csv_record_format() {
    let r = format_record(&t(9, 8080), OutputFormat::Csv);
    assert_eq!(r, "10.0.0.9,8080");
}

#[test]
fn json_record_format() {
    let r = format_record(&t(1, 443), OutputFormat::Json);
    assert_eq!(r, "{\"host\":\"10.0.0.1\",\"port\":443}");
}

#[test]
fn v6_record_format() {
    let tgt = Target { host: HostAddr::V6(1), port: 80 };
    let r = format_record(&tgt, OutputFormat::Line);
    assert_eq!(r, "0:0:0:0:0:0:0:1:80");
}

#[test]
fn v6_groups_format_in_hex() {
    let tgt = Target {
        host: HostAddr::V6(0x20010DB8000000000000000000000042),
        port: 443,
    };
    let r = format_record(&tgt, OutputFormat::Line);
    assert_eq!(r, "2001:db8:0:0:0:0:0:42:443");
}
