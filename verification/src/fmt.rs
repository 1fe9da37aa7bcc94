//! Record formatting for the result sink: hosts as dotted-quad or
//! colon-grouped hex text, and one record per confirmed-open target in
//! line, CSV or JSON form.

use vstd::prelude::*;
use crate::hosts::HostAddr;
use crate::codec::Target;

verus! {

/// The three output disciplines' record shapes.
#[derive(Clone, Copy, PartialEq, Eq, Structural, Debug)]
pub enum OutputFormat {
    Line,
    Csv,
    Json,
}

pub open spec fn digit_char(d: int) -> char {
    if d == 0 { '0' } else if d == 1 { '1' } else if d == 2 { '2' }
    else if d == 3 { '3' } else if d == 4 { '4' } else if d == 5 { '5' }
    else if d == 6 { '6' } else if d == 7 { '7' } else if d == 8 { '8' }
    else if d == 9 { '9' } else if d == 10 { 'a' } else if d == 11 { 'b' }
    else if d == 12 { 'c' } else if d == 13 { 'd' } else if d == 14 { 'e' }
    else { 'f' }
}

/// The decimal digits of `n`, most significant first, no leading zeros.
pub open spec fn dec_chars(n: int) -> Seq<char>
    decreases n,
{
    if n < 10 {
        seq![digit_char(n)]
    } else {
        dec_chars(n / 10).push(digit_char(n % 10))
    }
}

/// The hexadecimal digits of `n`, lowercase, no leading zeros.
pub open spec fn hex_chars(n: int) -> Seq<char>
    decreases n,
{
    if n < 16 {
        seq![digit_char(n)]
    } else {
        hex_chars(n / 16).push(digit_char(n % 16))
    }
}

/// One digit as text.
fn digit_str(d: u8) -> (r: &'static str)
    requires
        d < 16,
    ensures
        r@ == seq![digit_char(d as int)],
{
    proof {
        reveal_strlit("0");
        reveal_strlit("1");
        reveal_strlit("2");
        reveal_strlit("3");
        reveal_strlit("4");
        reveal_strlit("5");
        reveal_strlit("6");
        reveal_strlit("7");
        reveal_strlit("8");
        reveal_strlit("9");
        reveal_strlit("a");
        reveal_strlit("b");
        reveal_strlit("c");
        reveal_strlit("d");
        reveal_strlit("e");
        reveal_strlit("f");
    }
    match d {
        0 => "0",
        1 => "1",
        2 => "2",
        3 => "3",
        4 => "4",
        5 => "5",
        6 => "6",
        7 => "7",
        8 => "8",
        9 => "9",
        10 => "a",
        11 => "b",
        12 => "c",
        13 => "d",
        14 => "e",
        _ => "f",
    }
}

/// Append `n` in decimal.
pub fn append_dec(s: &mut String, n: u64)
    ensures
        final(s)@ == old(s)@ + dec_chars(n as int),
    decreases n,
{
    if n >= 10 {
        append_dec(s, n / 10);
        let d = digit_str((n % 10) as u8);
        s.append(d);
        proof {
            assert(final(s)@ =~= old(s)@ + dec_chars(n as int));
        }
    } else {
        let d = digit_str(n as u8);
        s.append(d);
        proof {
            assert(final(s)@ =~= old(s)@ + dec_chars(n as int));
        }
    }
}

/// Append `n` in lowercase hexadecimal.
pub fn append_hex(s: &mut String, n: u64)
    ensures
        final(s)@ == old(s)@ + hex_chars(n as int),
    decreases n,
{
    if n >= 16 {
        append_hex(s, n / 16);
        let d = digit_str((n % 16) as u8);
        s.append(d);
        proof {
            assert(final(s)@ =~= old(s)@ + hex_chars(n as int));
        }
    } else {
        let d = digit_str(n as u8);
        s.append(d);
        proof {
            assert(final(s)@ =~= old(s)@ + hex_chars(n as int));
        }
    }
}

/// An IPv4 address as its dotted quad.
pub open spec fn v4_chars(a: u32) -> Seq<char> {
    dec_chars((a / 0x1000000) as int) + seq!['.']
        + dec_chars(((a / 0x10000) % 0x100) as int) + seq!['.']
        + dec_chars(((a / 0x100) % 0x100) as int) + seq!['.']
        + dec_chars((a % 0x100) as int)
}

/// An IPv6 address as eight colon-separated hex groups (no `::`
/// compression).
pub open spec fn v6_chars(a: u128) -> Seq<char> {
    hex_chars(((a / 0x10000000000000000000000000000) % 0x10000) as int) + seq![':']
        + hex_chars(((a / 0x1000000000000000000000000) % 0x10000) as int) + seq![':']
        + hex_chars(((a / 0x100000000000000000000) % 0x10000) as int) + seq![':']
        + hex_chars(((a / 0x10000000000000000) % 0x10000) as int) + seq![':']
        + hex_chars(((a / 0x1000000000000) % 0x10000) as int) + seq![':']
        + hex_chars(((a / 0x100000000) % 0x10000) as int) + seq![':']
        + hex_chars(((a / 0x10000) % 0x10000) as int) + seq![':']
        + hex_chars((a % 0x10000) as int)
}

/// A host's canonical text.
pub open spec fn host_chars(h: HostAddr) -> Seq<char> {
    match h {
        HostAddr::V4(a) => v4_chars(a),
        HostAddr::V6(a) => v6_chars(a),
    }
}

/// Append a host's text.
#[verifier::rlimit(60)]
pub fn append_host(s: &mut String, h: &HostAddr)
    ensures
        final(s)@ == old(s)@ + host_chars(*h),
{
    proof {
        reveal_strlit(".");
        reveal_strlit(":");
    }
    match h {
        HostAddr::V4(a) => {
            let a = *a;
            append_dec(s, (a / 0x1000000) as u64);
            s.append(".");
            append_dec(s, ((a / 0x10000) % 0x100) as u64);
            s.append(".");
            append_dec(s, ((a / 0x100) % 0x100) as u64);
            s.append(".");
            append_dec(s, (a % 0x100) as u64);
            proof {
                assert(final(s)@ =~= old(s)@ + host_chars(*h));
            }
        },
        HostAddr::V6(a) => {
            let a = *a;
            append_hex(s, ((a / 0x10000000000000000000000000000u128) % 0x10000u128) as u64);
            s.append(":");
            append_hex(s, ((a / 0x1000000000000000000000000u128) % 0x10000u128) as u64);
            s.append(":");
            append_hex(s, ((a / 0x100000000000000000000u128) % 0x10000u128) as u64);
            s.append(":");
            append_hex(s, ((a / 0x10000000000000000u128) % 0x10000u128) as u64);
            s.append(":");
            append_hex(s, ((a / 0x1000000000000u128) % 0x10000u128) as u64);
            s.append(":");
            append_hex(s, ((a / 0x100000000u128) % 0x10000u128) as u64);
            s.append(":");
            append_hex(s, ((a / 0x10000u128) % 0x10000u128) as u64);
            s.append(":");
            append_hex(s, (a % 0x10000u128) as u64);
            proof {
                assert(final(s)@ =~= old(s)@ + host_chars(*h));
            }
        },
    }
}

/// One output record for a confirmed-open target.
pub open spec fn record_chars(t: Target, f: OutputFormat) -> Seq<char> {
    match f {
        OutputFormat::Line => host_chars(t.host) + seq![':'] + dec_chars(t.port as int),
        OutputFormat::Csv => host_chars(t.host) + seq![','] + dec_chars(t.port as int),
        OutputFormat::Json => "{\"host\":\""@ + host_chars(t.host)
            + "\",\"port\":"@ + dec_chars(t.port as int) + "}"@,
    }
}

/// Format one confirmed-open target.
pub fn format_record(t: &Target, f: OutputFormat) -> (r: String)
    ensures
        r@ == record_chars(*t, f),
{
    proof {
        reveal_strlit(":");
        reveal_strlit(",");
    }
    let mut s = String::new();
    match f {
        OutputFormat::Line => {
            append_host(&mut s, &t.host);
            s.append(":");
            append_dec(&mut s, t.port as u64);
        },
        OutputFormat::Csv => {
            append_host(&mut s, &t.host);
            s.append(",");
            append_dec(&mut s, t.port as u64);
        },
        OutputFormat::Json => {
            s.append("{\"host\":\"");
            append_host(&mut s, &t.host);
            s.append("\",\"port\":");
            append_dec(&mut s, t.port as u64);
            s.append("}");
        },
    }
    proof {
        assert(s@ =~= record_chars(*t, f));
    }
    s
}

} // verus!
