use armada::hosts::HostAddr;
use armada::codec::{Target, TcpSegment, Verdict, build_probe, classify, cookie, ack_of};

fn target() -> Target {
    Target { host: HostAddr::V4(0x0A000001), port: 80 }
}

fn syn_ack_for(seq: u32, t: &Target, dst_port: u16) -> TcpSegment {
    TcpSegment {
        src: t.host,
        src_port: t.port,
        dst_port,
        seq: 7,
        ack: ack_of(seq),
        syn: true,
        ack_flag: true,
        rst: false,
    }
}

#[test]
fn cookie_is_deterministic() {
    let a = cookie(target(), 51000, 0xDEADBEEF);
    let b = cookie(target(), 51000, 0xDEADBEEF);
    assert_eq!(a, b);
}

#[test]
fn cookie_depends_on_inputs() {
    let base = cookie(target(), 51000, 1);
    assert_ne!(base, cookie(target(), 51000, 2));
    assert_ne!(base, cookie(target(), 51001, 1));
    let other = Target { host: HostAddr::V4(0x0A000002), port: 80 };
    assert_ne!(base, cookie(other, 51000, 1));
}

#[test]
fn own_reply_is_accepted_as_open() {
    let p = build_probe(target(), HostAddr::V4(0x0A000063), 51000, 42);
    let seg = syn_ack_for(p.seq, &p.target, p.source_port);
    assert_eq!(classify(&seg, 51000, 42), Verdict::Open);
}

#[test]
fn rst_reply_is_closed() {
    let p = build_probe(target(), HostAddr::V4(0x0A000063), 51000, 42);
    let mut seg = syn_ack_for(p.seq, &p.target, p.source_port);
    seg.syn = false;
    seg.ack_flag = false;
    seg.rst = true;
    assert_eq!(classify(&seg, 51000, 42), Verdict::Closed);
}

#[test]
fn reply_under_other_secret_is_noise() {
    let p = build_probe(target(), HostAddr::V4(0x0A000063), 51000, 1);
    // the two secrets give distinct cookies here, so the reply cannot
    // authenticate under the second
    assert_ne!(cookie(target(), 51000, 1), cookie(target(), 51000, 2));
    let seg = syn_ack_for(p.seq, &p.target, p.source_port);
    assert_eq!(classify(&seg, 51000, 2), Verdict::Ignored);
}

#[test]
fn wrong_listening_port_is_noise() {
    let p = build_probe(target(), HostAddr::V4(0x0A000063), 51000, 42);
    let seg = syn_ack_for(p.seq, &p.target, 51001);
    assert_eq!(classify(&seg, 51000, 42), Verdict::Ignored);
}

#[test]
fn wrong_ack_is_noise() {
    let p = build_probe(target(), HostAddr::V4(0x0A000063), 51000, 42);
    let mut seg = syn_ack_for(p.seq, &p.target, p.source_port);
    seg.ack = seg.ack.wrapping_add(1);
    assert_eq!(classify(&seg, 51000, 42), Verdict::Ignored);
}

#[test]
fn plain_ack_without_syn_or_rst_is_noise() {
    let p = build_probe(target(), HostAddr::V4(0x0A000063), 51000, 42);
    let mut seg = syn_ack_for(p.seq, &p.target, p.source_port);
    seg.syn = false;
    assert_eq!(classify(&seg, 51000, 42), Verdict::Ignored);
}

#[test]
fn ack_of_wraps() {
    assert_eq!(ack_of(5), 6);
    assert_eq!(ack_of(u32::MAX), 0);
}
