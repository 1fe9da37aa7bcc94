//! The probe codec: builds SYN probes whose initial sequence number is a
//! keyed cookie of the target's identity, and authenticates inbound
//! segments by recomputing that cookie — no per-target state is kept.

use vstd::prelude::*;
use crate::hosts::HostAddr;

verus! {

/// One (host, port) pair of the target space.
#[derive(Clone, Copy, PartialEq, Eq, Structural, Debug)]
pub struct Target {
    pub host: HostAddr,
    pub port: u16,
}

/// An outbound probe: never stored, rebuilt fresh for every
/// transmission of every pass.
#[derive(Clone, Copy, PartialEq, Eq, Structural, Debug)]
pub struct Probe {
    pub target: Target,
    pub source: HostAddr,
    pub source_port: u16,
    /// The initial TCP sequence number: the cookie.
    pub seq: u32,
}

/// An inbound TCP segment as the listener sees it.
#[derive(Clone, Copy, PartialEq, Eq, Structural, Debug)]
pub struct TcpSegment {
    pub src: HostAddr,
    pub src_port: u16,
    pub dst_port: u16,
    pub seq: u32,
    pub ack: u32,
    pub syn: bool,
    pub ack_flag: bool,
    pub rst: bool,
}

/// What an inbound segment means for the scan.
#[derive(Clone, Copy, PartialEq, Eq, Structural, Debug)]
pub enum Verdict {
    /// Authenticated SYN-ACK: the port is open.
    Open,
    /// Authenticated RST: the port is closed.
    Closed,
    /// Unauthenticated or irrelevant traffic; discarded as noise.
    Ignored,
}

pub open spec fn spec_wmul(a: u64, b: u64) -> u64 {
    ((a * b) % 0x10000000000000000) as u64
}

pub open spec fn spec_wadd(a: u64, b: u64) -> u64 {
    ((a + b) % 0x10000000000000000) as u64
}

fn wmul(a: u64, b: u64) -> (r: u64)
    ensures
        r == spec_wmul(a, b),
{
    proof {
        assert((a as u128) * (b as u128) <= 0xFFFFFFFFFFFFFFFF * 0xFFFFFFFFFFFFFFFF)
            by (nonlinear_arith)
            requires
                a <= 0xFFFFFFFFFFFFFFFFu64,
                b <= 0xFFFFFFFFFFFFFFFFu64,
        ;
    }
    let w: u128 = (a as u128) * (b as u128);
    (w % 0x10000000000000000u128) as u64
}

fn wadd(a: u64, b: u64) -> (r: u64)
    ensures
        r == spec_wadd(a, b),
{
    let w: u128 = (a as u128) + (b as u128);
    (w % 0x10000000000000000u128) as u64
}

/// One diffusion round over 64 bits. Opaque: callers treat the mixed
/// value as an unstructured cookie ingredient.
#[verifier::opaque]
pub open spec fn spec_mix(x0: u64) -> u64 {
    let x = spec_wadd(x0, 0x9E3779B97F4A7C15);
    let a = spec_wmul(x ^ (x >> 30), 0xBF58476D1CE4E5B9);
    let b = spec_wmul(a ^ (a >> 27), 0x94D049BB133111EB);
    b ^ (b >> 31)
}

fn mix(x0: u64) -> (r: u64)
    ensures
        r == spec_mix(x0),
{
    proof {
        reveal(spec_mix);
    }
    let x = wadd(x0, 0x9E3779B97F4A7C15);
    let a = wmul(x ^ (x >> 30), 0xBF58476D1CE4E5B9);
    let b = wmul(a ^ (a >> 27), 0x94D049BB133111EB);
    b ^ (b >> 31)
}

/// The host's numeric value, and a tag separating the two families.
pub open spec fn spec_host_words(h: HostAddr) -> (u64, u64, u64) {
    match h {
        HostAddr::V4(a) => (a as u64, 0, 0),
        HostAddr::V6(a) => ((a % 0x10000000000000000) as u64,
            ((a / 0x10000000000000000) % 0x10000000000000000) as u64, 1),
    }
}

/// The keyed cookie binding a probe to (target, source port, secret).
/// Embedded as the SYN's initial sequence number; a legitimate reply
/// echoes it, incremented, in its acknowledgment number.
pub open spec fn spec_cookie(t: Target, source_port: u16, secret: u64) -> u32 {
    let (lo, hi, tag) = spec_host_words(t.host);
    let x1 = spec_mix(secret ^ lo);
    let x2 = spec_mix(x1 ^ hi);
    let x3 = spec_mix(x2 ^ (t.port as u64) ^ ((source_port as u64) << 16u64) ^ (tag << 32u64));
    (x3 % 0x100000000u64) as u32
}

#[verifier::rlimit(50)]
pub fn cookie(t: Target, source_port: u16, secret: u64) -> (r: u32)
    ensures
        r == spec_cookie(t, source_port, secret),
{
    let (lo, hi, tag): (u64, u64, u64) = match t.host {
        HostAddr::V4(a) => (a as u64, 0u64, 0u64),
        HostAddr::V6(a) => ((a % 0x10000000000000000u128) as u64,
            ((a / 0x10000000000000000u128) % 0x10000000000000000u128) as u64, 1u64),
    };
    let x1 = mix(secret ^ lo);
    let x2 = mix(x1 ^ hi);
    let x3 = mix(x2 ^ (t.port as u64) ^ ((source_port as u64) << 16u64) ^ (tag << 32u64));
    (x3 % 0x100000000u64) as u32
}

/// The acknowledgment number a legitimate reply to `seq` carries.
pub open spec fn spec_ack_of(seq: u32) -> u32 {
    (((seq as u64) + 1) % 0x100000000) as u32
}

pub fn ack_of(seq: u32) -> (r: u32)
    ensures
        r == spec_ack_of(seq),
{
    let w: u64 = (seq as u64) + 1;
    (w % 0x100000000u64) as u32
}

/// Build the probe for one target: SYN from `source`:`source_port` to
/// the target, sequence number the cookie.
pub fn build_probe(t: Target, source: HostAddr, source_port: u16, secret: u64) -> (p: Probe)
    ensures
        p.target == t,
        p.source == source,
        p.source_port == source_port,
        p.seq == spec_cookie(t, source_port, secret),
{
    Probe { target: t, source, source_port, seq: cookie(t, source_port, secret) }
}

/// The verdict an inbound segment earns: only a segment addressed to
/// the scan's listening port whose acknowledgment number echoes the
/// recomputed cookie, incremented, is accepted; SYN-ACK means open,
/// RST means closed, anything else is noise.
pub open spec fn spec_classify(seg: TcpSegment, listening_port: u16, secret: u64) -> Verdict {
    let t = Target { host: seg.src, port: seg.src_port };
    if seg.dst_port != listening_port {
        Verdict::Ignored
    } else if seg.ack != spec_ack_of(spec_cookie(t, listening_port, secret)) {
        Verdict::Ignored
    } else if seg.syn && seg.ack_flag {
        Verdict::Open
    } else if seg.rst {
        Verdict::Closed
    } else {
        Verdict::Ignored
    }
}

pub fn classify(seg: &TcpSegment, listening_port: u16, secret: u64) -> (v: Verdict)
    ensures
        v == spec_classify(*seg, listening_port, secret),
{
    if seg.dst_port != listening_port {
        return Verdict::Ignored;
    }
    let t = Target { host: seg.src, port: seg.src_port };
    let expected = ack_of(cookie(t, listening_port, secret));
    if seg.ack != expected {
        return Verdict::Ignored;
    }
    if seg.syn && seg.ack_flag {
        Verdict::Open
    } else if seg.rst {
        Verdict::Closed
    } else {
        Verdict::Ignored
    }
}

/// The well-formed SYN-ACK a live open port sends back for a probe.
pub open spec fn spec_syn_ack_reply(p: Probe) -> TcpSegment {
    TcpSegment {
        src: p.target.host,
        src_port: p.target.port,
        dst_port: p.source_port,
        seq: 0,
        ack: spec_ack_of(p.seq),
        syn: true,
        ack_flag: true,
        rst: false,
    }
}

/// The well-formed RST a closed port sends back for a probe.
pub open spec fn spec_rst_reply(p: Probe) -> TcpSegment {
    TcpSegment {
        src: p.target.host,
        src_port: p.target.port,
        dst_port: p.source_port,
        seq: 0,
        ack: spec_ack_of(p.seq),
        syn: false,
        ack_flag: false,
        rst: true,
    }
}

/// Cookie validation is deterministic: a well-formed reply to a probe
/// built with a secret is always accepted under the same secret, as
/// open for a SYN-ACK and as closed for an RST.
pub proof fn lemma_cookie_accepts_own_reply(t: Target, source: HostAddr, sp: u16, secret: u64)
    ensures
        spec_classify(spec_syn_ack_reply(
            Probe { target: t, source, source_port: sp, seq: spec_cookie(t, sp, secret) },
        ), sp, secret) == Verdict::Open,
        spec_classify(spec_rst_reply(
            Probe { target: t, source, source_port: sp, seq: spec_cookie(t, sp, secret) },
        ), sp, secret) == Verdict::Closed,
{
}

/// Cookie validation is keyed: a reply to a probe built under one
/// secret is rejected under another whenever the two secrets give the
/// target distinct cookies. (Two 64-bit secrets can collide on a
/// 32-bit cookie; for such a pair the reply is indistinguishable from
/// a genuine one and this law does not apply.)
pub proof fn lemma_cookie_rejects_other_secret(
    t: Target,
    source: HostAddr,
    sp: u16,
    secret_build: u64,
    secret_check: u64,
)
    requires
        spec_cookie(t, sp, secret_build) != spec_cookie(t, sp, secret_check),
    ensures
        spec_classify(spec_syn_ack_reply(
            Probe { target: t, source, source_port: sp, seq: spec_cookie(t, sp, secret_build) },
        ), sp, secret_check) == Verdict::Ignored,
{
    let c1 = spec_cookie(t, sp, secret_build);
    let c2 = spec_cookie(t, sp, secret_check);
    assert(spec_ack_of(c1) != spec_ack_of(c2)) by {
        if c1 == 0xFFFFFFFF || c2 == 0xFFFFFFFF {
        }
    }
}

} // verus!
