//! The engine's few calls into outside crates, each behind a contract:
//! target-string parsing, and the two random draws made once per run.

use vstd::prelude::*;
use vstd::arithmetic::power2::pow2;

verus! {

/// What the CIDR parser makes of a target string: `(is_v6, network
/// base, prefix length)`. A function of the string alone.
pub uninterp spec fn cidr_parse(s: Seq<char>) -> Option<(bool, u128, u8)>;

/// Relies on cidr_utils::cidr::IpCidr::from_str: it accepts an IPv4 or
/// IPv6 address or CIDR block (a bare address gets the full-width
/// prefix); the stored prefix is the network base with the host bits
/// masked off, and the bit count never exceeds the family's width.
#[verifier::external_body]
pub fn parse_target(s: &str) -> (r: Option<(bool, u128, u8)>)
    ensures
        r == cidr_parse(s@),
        match r {
            Some((v6, base, prefix)) => {
                &&& (!v6 ==> prefix <= 32 && base < 0x100000000
                    && (base as int) % (pow2((32 - prefix) as nat) as int) == 0)
                &&& (v6 ==> prefix <= 128
                    && (base as int) % (pow2((128 - prefix) as nat) as int) == 0)
            },
            None => true,
        },
{
    match cidr_utils::cidr::IpCidr::from_str(s) {
        Ok(cidr_utils::cidr::IpCidr::V4(c)) => Some((false, c.get_prefix() as u128, c.get_bits())),
        Ok(cidr_utils::cidr::IpCidr::V6(c)) => Some((true, c.get_prefix(), c.get_bits())),
        Err(_) => None,
    }
}

/// Relies on rand::thread_rng and Rng::gen_range: a port drawn from
/// `[50000, 60000)`, used when no listening port is configured.
#[verifier::external_body]
pub fn random_listening_port() -> (r: u16)
    ensures
        50000 <= r < 60000,
{
    rand::Rng::gen_range(&mut rand::thread_rng(), 50_000..60_000)
}

/// Relies on rand::random: the per-run cookie secret. Nothing is
/// promised of its value; every contract downstream holds for any
/// secret.
#[verifier::external_body]
pub fn random_secret() -> u64 {
    rand::random::<u64>()
}

} // verus!
