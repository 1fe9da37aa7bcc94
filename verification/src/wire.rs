//! Wire encoding of a SYN probe: the 20-byte TCP header carrying the
//! cookie as its sequence number, with the internet ones-complement
//! checksum computed over the IPv4 pseudo-header and the header
//! itself.

use vstd::prelude::*;
use crate::codec::Probe;
use crate::hosts::HostAddr;

verus! {

pub open spec fn hi8(x: int) -> u8 {
    ((x / 256) % 256) as u8
}

pub open spec fn lo8(x: int) -> u8 {
    (x % 256) as u8
}

/// The big-endian 16-bit word at position `n` (counted in words).
pub open spec fn word_at(b: Seq<u8>, n: int) -> int {
    b[2 * n] * 256 + b[2 * n + 1]
}

/// The plain sum of the first `n` big-endian words.
pub open spec fn sum_words(b: Seq<u8>, n: int) -> int
    decreases n,
{
    if n <= 0 {
        0
    } else {
        sum_words(b, n - 1) + word_at(b, n - 1)
    }
}

/// Fold the carries of a ones-complement accumulator back in until it
/// fits 16 bits.
pub open spec fn fold_carry(x: int) -> int
    decreases x,
{
    if x > 0xFFFF {
        fold_carry(x % 0x10000 + x / 0x10000)
    } else {
        x
    }
}

/// The internet checksum of an even-length buffer: the complement of
/// the carry-folded word sum.
pub open spec fn inet_checksum(b: Seq<u8>) -> int {
    0xFFFF - fold_carry(sum_words(b, b.len() as int / 2))
}

/// The TCP SYN header for a probe, with the checksum field still zero:
/// source port, destination port, the cookie as the sequence number,
/// no acknowledgment, data offset 5, only the SYN flag, a fixed
/// receive window, no urgent pointer.
pub open spec fn tcp_syn_unsummed(p: Probe) -> Seq<u8> {
    seq![
        hi8(p.source_port as int), lo8(p.source_port as int),
        hi8(p.target.port as int), lo8(p.target.port as int),
        ((p.seq as int / 0x1000000) % 256) as u8,
        ((p.seq as int / 0x10000) % 256) as u8,
        ((p.seq as int / 0x100) % 256) as u8,
        (p.seq as int % 256) as u8,
        0u8, 0u8, 0u8, 0u8,
        0x50u8, 0x02u8,
        hi8(1024), lo8(1024),
        0u8, 0u8,
        0u8, 0u8,
    ]
}

/// The IPv4 pseudo-header the TCP checksum covers: both addresses,
/// the TCP protocol number, and the segment length.
pub open spec fn pseudo_v4(src: u32, dst: u32) -> Seq<u8> {
    seq![
        ((src as int / 0x1000000) % 256) as u8,
        ((src as int / 0x10000) % 256) as u8,
        ((src as int / 0x100) % 256) as u8,
        (src as int % 256) as u8,
        ((dst as int / 0x1000000) % 256) as u8,
        ((dst as int / 0x10000) % 256) as u8,
        ((dst as int / 0x100) % 256) as u8,
        (dst as int % 256) as u8,
        0u8, 6u8,
        0u8, 20u8,
    ]
}

/// The finished header: the checksum over pseudo-header plus header
/// written into bytes 16 and 17.
pub open spec fn tcp_syn_bytes(p: Probe, src: u32, dst: u32) -> Seq<u8> {
    let ck = inet_checksum(pseudo_v4(src, dst) + tcp_syn_unsummed(p));
    tcp_syn_unsummed(p).update(16, hi8(ck)).update(17, lo8(ck))
}

/// Push `x` as a big-endian 16-bit word.
fn push_u16(v: &mut Vec<u8>, x: u16)
    ensures
        final(v)@ == old(v)@ + seq![hi8(x as int), lo8(x as int)],
{
    v.push((x / 256) as u8);
    v.push((x % 256) as u8);
    proof {
        assert(v@ =~= old(v)@ + seq![hi8(x as int), lo8(x as int)]);
    }
}

/// Push `x` as a big-endian 32-bit word.
fn push_u32(v: &mut Vec<u8>, x: u32)
    ensures
        final(v)@ == old(v)@ + seq![
            ((x as int / 0x1000000) % 256) as u8,
            ((x as int / 0x10000) % 256) as u8,
            ((x as int / 0x100) % 256) as u8,
            (x as int % 256) as u8,
        ],
{
    v.push((x / 0x1000000) as u8);
    v.push(((x / 0x10000) % 256) as u8);
    v.push(((x / 0x100) % 256) as u8);
    v.push((x % 256) as u8);
    proof {
        assert(v@ =~= old(v)@ + seq![
            ((x as int / 0x1000000) % 256) as u8,
            ((x as int / 0x10000) % 256) as u8,
            ((x as int / 0x100) % 256) as u8,
            (x as int % 256) as u8,
        ]);
    }
}

/// The internet checksum of `b`, which must hold a whole number of
/// words.
pub fn checksum(b: &Vec<u8>) -> (r: u16)
    requires
        b@.len() % 2 == 0,
        b@.len() <= 0x10000,
    ensures
        r == inet_checksum(b@),
{
    let n = b.len() / 2;
    let mut sum: u64 = 0;
    let mut i: usize = 0;
    while i < n
        invariant
            i <= n,
            2 * n == b@.len() <= 0x10000,
            sum == sum_words(b@, i as int),
            sum <= i * 0xFFFF,
        decreases n - i,
    {
        let w: u64 = (b[2 * i] as u64) * 256 + (b[2 * i + 1] as u64);
        proof {
            assert(w == word_at(b@, i as int));
            assert((i + 1) * 0xFFFF == i * 0xFFFF + 0xFFFF) by (nonlinear_arith);
        }
        sum = sum + w;
        i = i + 1;
    }
    while sum > 0xFFFF
        invariant
            fold_carry(sum as int) == fold_carry(sum_words(b@, n as int)),
        decreases sum,
    {
        sum = sum % 0x10000 + sum / 0x10000;
    }
    proof {
        assert(fold_carry(sum as int) == sum as int);
    }
    0xFFFF - (sum as u16)
}

/// Build the raw TCP SYN header for an IPv4 probe.
pub fn encode_syn_v4(p: &Probe) -> (r: Vec<u8>)
    requires
        p.target.host is V4,
        p.source is V4,
    ensures
        r@.len() == 20,
        r@ == tcp_syn_bytes(*p, p.source->V4_0, p.target.host->V4_0),
{
    let src: u32 = match p.source {
        HostAddr::V4(a) => a,
        HostAddr::V6(_) => 0,
    };
    let dst: u32 = match p.target.host {
        HostAddr::V4(a) => a,
        HostAddr::V6(_) => 0,
    };
    // checksum input: pseudo-header, then the header with a zero
    // checksum field
    let mut buf: Vec<u8> = Vec::new();
    push_u32(&mut buf, src);
    push_u32(&mut buf, dst);
    buf.push(0);
    buf.push(6);
    push_u16(&mut buf, 20);
    let ghost pseudo = buf@;
    proof {
        assert(pseudo =~= pseudo_v4(src, dst));
    }
    push_u16(&mut buf, p.source_port);
    push_u16(&mut buf, p.target.port);
    push_u32(&mut buf, p.seq);
    push_u32(&mut buf, 0);
    buf.push(0x50);
    buf.push(0x02);
    push_u16(&mut buf, 1024);
    push_u16(&mut buf, 0);
    push_u16(&mut buf, 0);
    proof {
        assert(buf@ =~= pseudo_v4(src, dst) + tcp_syn_unsummed(*p));
    }
    let ck = checksum(&buf);
    let mut out: Vec<u8> = Vec::new();
    let mut i: usize = 12;
    while i < 32
        invariant
            12 <= i <= 32,
            buf@.len() == 32,
            buf@ == pseudo_v4(src, dst) + tcp_syn_unsummed(*p),
            out@ =~= tcp_syn_unsummed(*p).take(i - 12),
        decreases 32 - i,
    {
        out.push(buf[i]);
        proof {
            assert(buf@[i as int] == tcp_syn_unsummed(*p)[i - 12]);
            assert(out@ =~= tcp_syn_unsummed(*p).take(i + 1 - 12));
        }
        i = i + 1;
    }
    proof {
        assert(out@ =~= tcp_syn_unsummed(*p));
    }
    let hi = (ck / 256) as u8;
    let lo = (ck % 256) as u8;
    out.set(16, hi);
    out.set(17, lo);
    proof {
        assert(out@ =~= tcp_syn_bytes(*p, src, dst));
    }
    out
}

} // verus!
