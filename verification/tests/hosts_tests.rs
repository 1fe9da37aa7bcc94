use armada::hosts::{HostIterator, HostAddr, CidrBlock, collect_hosts};
use armada::config::get_targets;

fn v4(a: u8, b: u8, c: u8, d: u8) -> HostAddr {
    HostAddr::V4(u32::from_be_bytes([a, b, c, d]))
}

#[test]
fn single_ip_is_yielded() {
    let it = HostIterator::new().add_ip(v4(10, 0, 0, 1));
    assert_eq!(collect_hosts(&it), vec![v4(10, 0, 0, 1)]);
}

#[test]
fn cidr_block_expands_ascending() {
    // through the real CIDR parser
    let it = get_targets(&vec!["10.0.0.0/30".to_string()]).unwrap();
    assert_eq!(
        collect_hosts(&it),
        vec![v4(10, 0, 0, 0), v4(10, 0, 0, 1), v4(10, 0, 0, 2), v4(10, 0, 0, 3)]
    );
}

#[test]
fn bare_address_parses_to_one_host() {
    let it = get_targets(&vec!["192.168.1.7".to_string()]).unwrap();
    assert_eq!(collect_hosts(&it), vec![v4(192, 168, 1, 7)]);
}

#[test]
fn host_bits_are_masked_off() {
    // the registered base is the network address even when the input
    // string carries host bits
    let it = get_targets(&vec!["10.0.0.9/30".to_string()]).unwrap();
    assert_eq!(
        collect_hosts(&it),
        vec![v4(10, 0, 0, 8), v4(10, 0, 0, 9), v4(10, 0, 0, 10), v4(10, 0, 0, 11)]
    );
}

#[test]
fn inputs_are_visited_in_registration_order() {
    let it = get_targets(&vec!["10.0.0.4/31".to_string(), "10.0.0.1".to_string()]).unwrap();
    assert_eq!(
        collect_hosts(&it),
        vec![v4(10, 0, 0, 4), v4(10, 0, 0, 5), v4(10, 0, 0, 1)]
    );
}

#[test]
fn every_implied_address_appears() {
    // two overlapping inputs: each input's addresses all appear
    let it = get_targets(&vec!["10.0.0.0/31".to_string(), "10.0.0.1".to_string()]).unwrap();
    let got = collect_hosts(&it);
    for want in [v4(10, 0, 0, 0), v4(10, 0, 0, 1)] {
        assert!(got.iter().any(|h| *h == want));
    }
}

#[test]
fn v6_block_expands() {
    let it = get_targets(&vec!["::1/127".to_string()]).unwrap();
    assert_eq!(collect_hosts(&it), vec![HostAddr::V6(0), HostAddr::V6(1)]);
}

#[test]
fn malformed_target_is_rejected() {
    assert!(get_targets(&vec!["not-an-ip".to_string()]).is_err());
    assert!(get_targets(&vec!["10.0.0.0/33".to_string()]).is_err());
}

#[test]
fn direct_block_expansion() {
    let it = HostIterator::new().add_cidr(CidrBlock {
        v6: false,
        base: 0xC0A80000,
        prefix: 31,
    });
    assert_eq!(collect_hosts(&it), vec![v4(192, 168, 0, 0), v4(192, 168, 0, 1)]);
}
