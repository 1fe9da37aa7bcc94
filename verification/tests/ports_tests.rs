use armada::ports::{PortIterator, PortCursor, collect_ports};
use armada::parse::{parse_port_spec, ConfigError};

#[test]
fn range_yields_each_port_once() {
    let it = PortIterator::new().add_range(10, 15);
    let got = collect_ports(&it);
    assert_eq!(got, vec![10, 11, 12, 13, 14, 15]);
}

#[test]
fn single_port_yields_itself() {
    let it = PortIterator::new().add_port(443);
    assert_eq!(collect_ports(&it), vec![443]);
}

#[test]
fn empty_iterator_yields_nothing() {
    let it = PortIterator::new();
    assert_eq!(collect_ports(&it), Vec::<u16>::new());
}

#[test]
fn registration_order_is_kept() {
    let it = PortIterator::new().add_port(443).add_range(80, 82).add_port(22);
    assert_eq!(collect_ports(&it), vec![443, 80, 81, 82, 22]);
}

#[test]
fn full_width_range_endpoints() {
    let it = PortIterator::new().add_range(65534, 65535);
    assert_eq!(collect_ports(&it), vec![65534, 65535]);
}

#[test]
fn cursor_restarts_identically() {
    let it = PortIterator::new().add_range(1, 3).add_port(9);
    let first = collect_ports(&it);
    let mut second = Vec::new();
    let mut cur = PortCursor::new(&it);
    while let Some(p) = cur.next(&it) {
        second.push(p);
    }
    assert_eq!(first, second);
}

#[test]
fn parses_single_port() {
    let r = parse_port_spec("80").unwrap();
    assert_eq!((r.start, r.end), (80, 80));
}

#[test]
fn parses_port_range() {
    let r = parse_port_spec("8000-8100").unwrap();
    assert_eq!((r.start, r.end), (8000, 8100));
}

#[test]
fn inverted_range_is_rejected() {
    assert_eq!(parse_port_spec("100-50"), Err(ConfigError::InvertedPortRange));
}

#[test]
fn malformed_specs_are_rejected() {
    assert_eq!(parse_port_spec(""), Err(ConfigError::MalformedPort));
    assert_eq!(parse_port_spec("abc"), Err(ConfigError::MalformedPort));
    assert_eq!(parse_port_spec("70000"), Err(ConfigError::MalformedPort));
    assert_eq!(parse_port_spec("-5"), Err(ConfigError::MalformedPort));
    assert_eq!(parse_port_spec("5-"), Err(ConfigError::MalformedPort));
    assert_eq!(parse_port_spec("1-2-3"), Err(ConfigError::MalformedPort));
}

#[test]
fn boundary_port_values() {
    let r = parse_port_spec("0-65535").unwrap();
    assert_eq!((r.start, r.end), (0, 65535));
    assert_eq!(parse_port_spec("65536"), Err(ConfigError::MalformedPort));
}
