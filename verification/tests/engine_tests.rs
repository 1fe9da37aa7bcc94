use armada::hosts::HostAddr;
use armada::ports::PortIterator;
use armada::codec::{Probe, TcpSegment, ack_of};
use armada::config::get_targets;
use armada::engine::{Scanner, TransmitStep, Phase};
use armada::fmt::OutputFormat;

fn syn_ack(p: &Probe) -> TcpSegment {
    TcpSegment {
        src: p.target.host,
        src_port: p.target.port,
        dst_port: p.source_port,
        seq: 99,
        ack: ack_of(p.seq),
        syn: true,
        ack_flag: true,
        rst: false,
    }
}

fn rst(p: &Probe) -> TcpSegment {
    TcpSegment {
        src: p.target.host,
        src_port: p.target.port,
        dst_port: p.source_port,
        seq: 99,
        ack: ack_of(p.seq),
        syn: false,
        ack_flag: false,
        rst: true,
    }
}

fn scanner(retries: u8, stream: bool) -> Scanner {
    let hosts = get_targets(&vec!["10.0.0.1".to_string()]).unwrap();
    let ports = PortIterator::new().add_port(80).add_port(443);
    Scanner::new(
        hosts,
        ports,
        retries,
        100,
        51000,
        0x5EC12E7,
        vec![HostAddr::V4(0x0A000063)],
        None,
        OutputFormat::Line,
        stream,
        0,
    )
}

fn transmit_pass(sc: &mut Scanner, now: u64) -> Vec<Probe> {
    let mut sent = Vec::new();
    loop {
        match sc.poll_transmit(now) {
            TransmitStep::Sent(p) => sent.push(p),
            TransmitStep::Throttled => panic!("unlimited mode must not throttle"),
            TransmitStep::PassComplete => return sent,
        }
    }
}

#[test]
fn open_and_closed_ports_one_record() {
    // targets {10.0.0.1}, ports {80, 443}, retries 0, unlimited rate,
    // timeout 100 ms; SYN-ACK from :80, RST from :443: exactly one
    // record, 10.0.0.1:80
    let mut sc = scanner(0, false);
    sc.start();
    let sent = transmit_pass(&mut sc, 0);
    assert_eq!(sent.len(), 2);
    assert_eq!(sent[0].target.port, 80);
    assert_eq!(sent[1].target.port, 443);

    assert!(sc.handle_segment(&syn_ack(&sent[0])).is_none());
    assert!(sc.handle_segment(&rst(&sent[1])).is_none());

    assert!(sc.drain_elapsed(100));
    assert!(sc.settle_pass(100));
    assert_eq!(sc.phase, Phase::Settled);
    assert_eq!(sc.finalize(), vec!["10.0.0.1:80".to_string()]);
}

#[test]
fn dropped_reply_confirmed_on_retry_pass() {
    // the SYN-ACK for :80 is lost in pass 1 and arrives in pass 2:
    // the port is still confirmed exactly once, after pass 2
    let mut sc = scanner(1, false);
    sc.start();
    let sent1 = transmit_pass(&mut sc, 0);
    assert_eq!(sent1.len(), 2);
    // pass 1: the RST arrives, the SYN-ACK does not
    sc.handle_segment(&rst(&sent1[1]));
    assert!(!sc.settle_pass(100));
    assert_eq!(sc.phase, Phase::Probing);

    // pass 2 re-traverses the same space in the same order
    let sent2 = transmit_pass(&mut sc, 200);
    assert_eq!(sent2.len(), 2);
    assert_eq!(sent2[0].target, sent1[0].target);
    assert_eq!(sent2[1].target, sent1[1].target);
    // the cookie is stateless: pass 2's probe carries the same one
    assert_eq!(sent2[0].seq, sent1[0].seq);

    sc.handle_segment(&syn_ack(&sent2[0]));
    // a duplicate of the same reply changes nothing
    sc.handle_segment(&syn_ack(&sent2[0]));

    assert!(sc.settle_pass(300));
    assert_eq!(sc.finalize(), vec!["10.0.0.1:80".to_string()]);
}

#[test]
fn confirmed_targets_are_skipped_on_later_passes() {
    let mut sc = scanner(1, false);
    sc.start();
    let sent1 = transmit_pass(&mut sc, 0);
    assert_eq!(sent1.len(), 2);
    sc.handle_segment(&syn_ack(&sent1[0]));
    assert!(!sc.settle_pass(100));

    // pass 2 probes only the unconfirmed target
    let sent2 = transmit_pass(&mut sc, 200);
    assert_eq!(sent2.len(), 1);
    assert_eq!(sent2[0].target.port, 443);

    assert!(sc.settle_pass(300));
    assert_eq!(sc.finalize(), vec!["10.0.0.1:80".to_string()]);
}

#[test]
fn stream_mode_reports_at_validation_time() {
    let mut sc = scanner(0, true);
    sc.start();
    let sent = transmit_pass(&mut sc, 0);
    let rec = sc.handle_segment(&syn_ack(&sent[0]));
    assert_eq!(rec, Some("10.0.0.1:80".to_string()));
    // the duplicate is suppressed
    assert_eq!(sc.handle_segment(&syn_ack(&sent[0])), None);
    assert!(sc.settle_pass(100));
    assert_eq!(sc.finalize(), Vec::<String>::new());
}

#[test]
fn noise_confirms_nothing() {
    let mut sc = scanner(0, false);
    sc.start();
    let sent = transmit_pass(&mut sc, 0);
    let mut bogus = syn_ack(&sent[0]);
    bogus.ack = bogus.ack.wrapping_add(7);
    assert!(sc.handle_segment(&bogus).is_none());
    assert!(sc.settle_pass(100));
    assert_eq!(sc.finalize(), Vec::<String>::new());
}

#[test]
fn family_mismatch_skips_and_counts() {
    // an IPv6 target with only an IPv4 source address: skipped, counted
    let hosts = get_targets(&vec!["::1".to_string()]).unwrap();
    let ports = PortIterator::new().add_port(80);
    let mut sc = Scanner::new(
        hosts,
        ports,
        0,
        100,
        51000,
        7,
        vec![HostAddr::V4(0x0A000063)],
        None,
        OutputFormat::Line,
        false,
        0,
    );
    sc.start();
    let sent = transmit_pass(&mut sc, 0);
    assert_eq!(sent.len(), 0);
    assert_eq!(sc.skipped_no_source, 1);
}

#[test]
fn source_addresses_rotate_round_robin() {
    let hosts = get_targets(&vec!["10.0.0.0/30".to_string()]).unwrap();
    let ports = PortIterator::new().add_port(80);
    let mut sc = Scanner::new(
        hosts,
        ports,
        0,
        100,
        51000,
        7,
        vec![HostAddr::V4(0x0A000063), HostAddr::V4(0x0A000064)],
        None,
        OutputFormat::Line,
        false,
        0,
    );
    sc.start();
    let sent = transmit_pass(&mut sc, 0);
    assert_eq!(sent.len(), 4);
    // the two matching source addresses alternate, probe by probe
    assert_eq!(sent[0].source, HostAddr::V4(0x0A000063));
    assert_eq!(sent[1].source, HostAddr::V4(0x0A000064));
    assert_eq!(sent[2].source, HostAddr::V4(0x0A000063));
    assert_eq!(sent[3].source, HostAddr::V4(0x0A000064));
}

#[test]
fn family_mismatched_sources_are_passed_over() {
    let hosts = get_targets(&vec!["10.0.0.1".to_string()]).unwrap();
    let ports = PortIterator::new().add_port(80).add_port(443);
    let mut sc = Scanner::new(
        hosts,
        ports,
        0,
        100,
        51000,
        7,
        vec![HostAddr::V6(9), HostAddr::V4(0x0A000063), HostAddr::V6(10)],
        None,
        OutputFormat::Line,
        false,
        0,
    );
    sc.start();
    let sent = transmit_pass(&mut sc, 0);
    assert_eq!(sent.len(), 2);
    // the only v4 source serves every v4 target
    assert_eq!(sent[0].source, HostAddr::V4(0x0A000063));
    assert_eq!(sent[1].source, HostAddr::V4(0x0A000063));
}

#[test]
fn rate_limited_transmit_throttles() {
    let hosts = get_targets(&vec!["10.0.0.0/24".to_string()]).unwrap();
    let ports = PortIterator::new().add_port(80);
    let mut sc = Scanner::new(
        hosts,
        ports,
        0,
        100,
        51000,
        7,
        vec![HostAddr::V4(0x0A000063)],
        Some(1000),
        OutputFormat::Line,
        false,
        0,
    );
    sc.start();
    // the burst allowance grants at most 100 probes at one instant
    let mut sent: u64 = 0;
    loop {
        match sc.poll_transmit(0) {
            TransmitStep::Sent(_) => sent += 1,
            TransmitStep::Throttled => break,
            TransmitStep::PassComplete => break,
        }
    }
    assert_eq!(sent, 100);
}
