//! The configuration surface: each flag's parsing and defaulting rule,
//! from plain string values to the immutable snapshot the engine
//! consumes. Malformed values are fatal configuration errors, raised
//! before any packet is built.

use vstd::prelude::*;
use crate::parse::{ConfigError, parse_decimal, all_digits, dec_value, parse_port_spec,
    port_spec_value, port_spec_inverted};
use crate::hosts::{HostIterator, HostEntry, HostAddr, CidrBlock};
use crate::ports::PortIterator;
use crate::fmt::OutputFormat;

verus! {

/// Default packets-per-second cap.
pub const DEFAULT_RATE_LIMIT: u64 = 10_000;

/// Default number of additional passes against unconfirmed ports.
pub const DEFAULT_PORT_RETRY: u8 = 2;

/// Default per-pass drain window.
pub const DEFAULT_TIMEOUT_IN_MS: u64 = 1_000;

/// A string that parses as a decimal number no greater than `max`.
pub open spec fn parses_to(s: Seq<char>, max: int) -> bool {
    s.len() > 0 && all_digits(s) && dec_value(s) <= max
}

/// The rate-limit rule: the hidden full-speed flag or an explicit `0`
/// turn the limiter off; no flag means the default cap.
pub open spec fn spec_rate_limit(parsed: Option<u64>, sanic: bool) -> Option<u64> {
    if sanic {
        None
    } else {
        match parsed {
            Some(r) => if r == 0 { None } else { Some(r) },
            None => Some(DEFAULT_RATE_LIMIT as u64),
        }
    }
}

/// The maximum packets per second, or `None` for unlimited.
pub fn get_rate_limit(value: Option<&str>, sanic: bool) -> (r: Result<Option<u64>, ConfigError>)
    ensures
        match value {
            None => r == Ok::<Option<u64>, ConfigError>(spec_rate_limit(None, sanic)),
            Some(v) => {
                if parses_to(v@, u64::MAX as int) {
                    r == Ok::<Option<u64>, ConfigError>(spec_rate_limit(Some(dec_value(v@) as u64), sanic))
                } else {
                    r == Err::<Option<u64>, ConfigError>(ConfigError::MalformedNumber)
                }
            },
        },
{
    match value {
        None => {
            if sanic {
                Ok(None)
            } else {
                Ok(Some(DEFAULT_RATE_LIMIT))
            }
        },
        Some(v) => {
            match parse_decimal(v, u64::MAX) {
                None => Err(ConfigError::MalformedNumber),
                Some(n) => {
                    if sanic || n == 0 {
                        Ok(None)
                    } else {
                        Ok(Some(n))
                    }
                },
            }
        },
    }
}

/// The retry rule: an explicit count wins; the full-speed flag means
/// no retries; otherwise the default.
pub open spec fn spec_retries(parsed: Option<u8>, sanic: bool) -> u8 {
    match parsed {
        Some(n) => n,
        None => if sanic { 0u8 } else { DEFAULT_PORT_RETRY as u8 },
    }
}

/// Additional passes beyond the first.
pub fn get_retries(value: Option<&str>, sanic: bool) -> (r: Result<u8, ConfigError>)
    ensures
        match value {
            None => r == Ok::<u8, ConfigError>(spec_retries(None, sanic)),
            Some(v) => {
                if parses_to(v@, u8::MAX as int) {
                    r == Ok::<u8, ConfigError>(spec_retries(Some(dec_value(v@) as u8), sanic))
                } else {
                    r == Err::<u8, ConfigError>(ConfigError::MalformedNumber)
                }
            },
        },
{
    match value {
        None => if sanic {
            Ok(0)
        } else {
            Ok(DEFAULT_PORT_RETRY)
        },
        Some(v) => {
            match parse_decimal(v, 255) {
                None => Err(ConfigError::MalformedNumber),
                Some(n) => Ok(n as u8),
            }
        },
    }
}

/// The per-pass drain window in milliseconds.
pub fn get_timeout(value: Option<&str>) -> (r: Result<u64, ConfigError>)
    ensures
        match value {
            None => r == Ok::<u64, ConfigError>(DEFAULT_TIMEOUT_IN_MS as u64),
            Some(v) => {
                if parses_to(v@, u64::MAX as int) {
                    r == Ok::<u64, ConfigError>(dec_value(v@) as u64)
                } else {
                    r == Err::<u64, ConfigError>(ConfigError::MalformedNumber)
                }
            },
        },
{
    match value {
        None => Ok(DEFAULT_TIMEOUT_IN_MS),
        Some(v) => {
            match parse_decimal(v, u64::MAX) {
                None => Err(ConfigError::MalformedNumber),
                Some(n) => Ok(n),
            }
        },
    }
}

/// The probes' fixed source port; a random high port when unset.
pub fn get_listening_port(value: Option<&str>) -> (r: Result<u16, ConfigError>)
    ensures
        match value {
            None => r is Ok && 50000 <= r->Ok_0 < 60000,
            Some(v) => {
                if parses_to(v@, u16::MAX as int) {
                    r == Ok::<u16, ConfigError>(dec_value(v@) as u16)
                } else {
                    r == Err::<u16, ConfigError>(ConfigError::MalformedNumber)
                }
            },
        },
{
    match value {
        None => Ok(crate::outside::random_listening_port()),
        Some(v) => {
            match parse_decimal(v, 65535) {
                None => Err(ConfigError::MalformedNumber),
                Some(n) => Ok(n as u16),
            }
        },
    }
}

/// Character-wise string equality.
pub fn str_eq(a: &str, b: &str) -> (r: bool)
    ensures
        r == (a@ == b@),
{
    let na = a.unicode_len();
    let nb = b.unicode_len();
    if na != nb {
        return false;
    }
    let mut i: usize = 0;
    while i < na
        invariant
            i <= na == a@.len(),
            na == nb == b@.len(),
            forall|j: int| 0 <= j < i ==> a@[j] == b@[j],
        decreases na - i,
    {
        if a.get_char(i) != b.get_char(i) {
            return false;
        }
        i = i + 1;
    }
    proof {
        assert(a@ =~= b@);
    }
    true
}

pub open spec fn spec_output_format(s: Seq<char>) -> OutputFormat {
    if s == "csv"@ || s == "CSV"@ {
        OutputFormat::Csv
    } else if s == "json"@ || s == "JSON"@ {
        OutputFormat::Json
    } else {
        OutputFormat::Line
    }
}

/// The record format; anything but the two structured names means
/// plain line output.
pub fn get_output_format(value: &str) -> (r: OutputFormat)
    ensures
        r == spec_output_format(value@),
{
    if str_eq(value, "csv") || str_eq(value, "CSV") {
        OutputFormat::Csv
    } else if str_eq(value, "json") || str_eq(value, "JSON") {
        OutputFormat::Json
    } else {
        OutputFormat::Line
    }
}

/// Streaming needs a non-interactive output: quiet mode, or stdout not
/// a terminal.
pub fn check_stream(stream: bool, quiet: bool, stdout_tty: bool) -> (r: Result<
    (),
    ConfigError,
>)
    ensures
        r is Ok <==> (!stream || quiet || !stdout_tty),
        r is Err ==> r == Err::<(), ConfigError>(ConfigError::StreamNeedsQuiet),
{
    if stream && !quiet && stdout_tty {
        Err(ConfigError::StreamNeedsQuiet)
    } else {
        Ok(())
    }
}

/// The block a parsed `(is_v6, base, prefix)` triple denotes.
pub open spec fn block_of(t: (bool, u128, u8)) -> CidrBlock {
    CidrBlock { v6: t.0, base: t.1, prefix: t.2 }
}

/// Register every target string, addresses and CIDR blocks alike.
/// `Ok` exactly when all of them parse; the host space is then the
/// concatenation of their expansions, in input order.
pub fn get_targets(lines: &Vec<String>) -> (r: Result<HostIterator, ConfigError>)
    ensures
        match r {
            Ok(hi) => {
                &&& hi.wf()
                &&& hi.entries@.len() == lines@.len()
                &&& forall|i: int| 0 <= i < lines@.len()
                    ==> crate::outside::cidr_parse(lines@[i]@) is Some
                        && #[trigger] hi.entries@[i] == HostEntry::Block(
                            block_of(crate::outside::cidr_parse(lines@[i]@)->Some_0))
            },
            Err(e) => {
                &&& e == ConfigError::MalformedTarget
                &&& exists|i: int| 0 <= i < lines@.len()
                    && crate::outside::cidr_parse(#[trigger] lines@[i]@) is None
            },
        },
{
    let mut hi = HostIterator::new();
    let mut i: usize = 0;
    while i < lines.len()
        invariant
            i <= lines@.len(),
            hi.wf(),
            hi.entries@.len() == i,
            forall|j: int| 0 <= j < i
                ==> crate::outside::cidr_parse(lines@[j]@) is Some
                    && #[trigger] hi.entries@[j] == HostEntry::Block(
                        block_of(crate::outside::cidr_parse(lines@[j]@)->Some_0)),
        decreases lines@.len() - i,
    {
        match crate::outside::parse_target(lines[i].as_str()) {
            None => {
                return Err(ConfigError::MalformedTarget);
            },
            Some((v6, base, prefix)) => {
                let block = CidrBlock { v6, base, prefix };
                proof {
                    vstd::arithmetic::power2::lemma2_to64();
                    crate::hosts::lemma_pow2_128();
                    assert(block.wf());
                }
                hi = hi.add_cidr(block);
            },
        }
        i = i + 1;
    }
    Ok(hi)
}

/// Register every port specification. `Ok` exactly when all of them
/// fit the grammar with no inverted range; the port space is then the
/// concatenation of the ranges, in input order.
pub fn get_ports(specs: &Vec<String>) -> (r: Result<PortIterator, ConfigError>)
    ensures
        match r {
            Ok(pi) => {
                &&& pi.wf()
                &&& pi.ranges@.len() == specs@.len()
                &&& forall|i: int| 0 <= i < specs@.len()
                    ==> port_spec_value(#[trigger] specs@[i]@)
                        == Some((pi.ranges@[i].start, pi.ranges@[i].end))
            },
            Err(e) => {
                &&& (e == ConfigError::MalformedPort
                    ==> exists|i: int| 0 <= i < specs@.len()
                        && port_spec_value(#[trigger] specs@[i]@) is None)
                &&& (e == ConfigError::InvertedPortRange
                    ==> exists|i: int| 0 <= i < specs@.len()
                        && port_spec_inverted(#[trigger] specs@[i]@))
                &&& (e == ConfigError::MalformedPort || e == ConfigError::InvertedPortRange)
            },
        },
{
    let mut pi = PortIterator::new();
    let mut i: usize = 0;
    while i < specs.len()
        invariant
            i <= specs@.len(),
            pi.wf(),
            pi.ranges@.len() == i,
            forall|j: int| 0 <= j < i
                ==> port_spec_value(#[trigger] specs@[j]@)
                    == Some((pi.ranges@[j].start, pi.ranges@[j].end)),
        decreases specs@.len() - i,
    {
        match parse_port_spec(specs[i].as_str()) {
            Err(e) => {
                return Err(e);
            },
            Ok(rg) => {
                let ghost old_pi = pi;
                pi = pi.add_range(rg.start, rg.end);
                proof {
                    assert(pi.ranges@ =~= old_pi.ranges@.push(rg));
                }
            },
        }
        i = i + 1;
    }
    Ok(pi)
}

/// Whether a string denotes a bare address: it parses, and its prefix
/// is the family's full width (no block).
pub open spec fn is_bare_address(s: Seq<char>) -> bool {
    match crate::outside::cidr_parse(s) {
        Some((v6, base, prefix)) => prefix == if v6 { 128int } else { 32int },
        None => false,
    }
}

/// The address a bare-address parse denotes.
pub open spec fn address_of(t: (bool, u128, u8)) -> HostAddr {
    if t.0 {
        HostAddr::V6(t.1)
    } else {
        HostAddr::V4(t.1 as u32)
    }
}

/// Parse the configured source addresses: bare IPs only, no blocks.
/// `Ok` exactly when every string is a bare address, and then each
/// entry is the address it denotes, in input order.
pub fn get_source_ip_addresses(values: &Vec<String>) -> (r: Result<Vec<HostAddr>, ConfigError>)
    ensures
        r is Ok <==> (forall|i: int| 0 <= i < values@.len()
            ==> is_bare_address(#[trigger] values@[i]@)),
        match r {
            Ok(v) => {
                &&& v@.len() == values@.len()
                &&& forall|i: int| 0 <= i < values@.len()
                    ==> v@[i] == address_of(
                        crate::outside::cidr_parse(#[trigger] values@[i]@)->Some_0)
            },
            Err(e) => e == ConfigError::MalformedTarget,
        },
{
    let mut out: Vec<HostAddr> = Vec::new();
    let mut i: usize = 0;
    while i < values.len()
        invariant
            i <= values@.len(),
            out@.len() == i,
            forall|j: int| 0 <= j < i ==> is_bare_address(#[trigger] values@[j]@),
            forall|j: int| 0 <= j < i
                ==> out@[j] == address_of(
                    crate::outside::cidr_parse(#[trigger] values@[j]@)->Some_0),
        decreases values@.len() - i,
    {
        match crate::outside::parse_target(values[i].as_str()) {
            None => {
                return Err(ConfigError::MalformedTarget);
            },
            Some((v6, base, prefix)) => {
                let full: u8 = if v6 { 128 } else { 32 };
                if prefix != full {
                    return Err(ConfigError::MalformedTarget);
                }
                let a = if v6 { HostAddr::V6(base) } else { HostAddr::V4(base as u32) };
                out.push(a);
            },
        }
        i = i + 1;
    }
    Ok(out)
}

} // verus!
