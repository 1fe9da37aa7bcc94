//! Configuration-string parsing: decimal numbers and port specifications
//! (`"80"` or `"8000-8100"`). Malformed input is a configuration error
//! surfaced before any scanning begins.

use vstd::prelude::*;
use crate::ports::PortRange;

verus! {

/// Why a configuration value was rejected.
#[derive(Clone, Copy, PartialEq, Eq, Structural, Debug)]
pub enum ConfigError {
    /// A port specification that is not `digits` or `digits-digits`
    /// with both values at most 65535.
    MalformedPort,
    /// A port range whose start exceeds its end.
    InvertedPortRange,
    /// A target that is neither an address nor a CIDR block.
    MalformedTarget,
    /// A numeric flag that is not a decimal number in range.
    MalformedNumber,
    /// Streaming requested on an interactive output without quiet mode.
    StreamNeedsQuiet,
}

pub open spec fn is_digit(c: char) -> bool {
    48 <= c as int && c as int <= 57
}

pub open spec fn digit_val(c: char) -> int {
    c as int - 48
}

pub open spec fn all_digits(s: Seq<char>) -> bool {
    forall|i: int| 0 <= i < s.len() ==> is_digit(#[trigger] s[i])
}

/// The value of a decimal digit string, most significant digit first.
pub open spec fn dec_value(s: Seq<char>) -> int
    decreases s.len(),
{
    if s.len() == 0 {
        0
    } else {
        dec_value(s.drop_last()) * 10 + digit_val(s.last())
    }
}

pub proof fn lemma_dec_value_nonneg(s: Seq<char>)
    requires
        all_digits(s),
    ensures
        dec_value(s) >= 0,
    decreases s.len(),
{
    if s.len() > 0 {
        assert(all_digits(s.drop_last()));
        lemma_dec_value_nonneg(s.drop_last());
    }
}

/// A digit string is worth at least any of its prefixes.
pub proof fn lemma_dec_value_prefix(s: Seq<char>, i: int)
    requires
        all_digits(s),
        0 <= i <= s.len(),
    ensures
        dec_value(s.take(i)) <= dec_value(s),
    decreases s.len() - i,
{
    if i < s.len() {
        let t = s.drop_last();
        assert(all_digits(t));
        assert(t.take(i) =~= s.take(i));
        lemma_dec_value_prefix(t, i);
        lemma_dec_value_nonneg(t);
    } else {
        assert(s.take(i) =~= s);
    }
}

/// Parse the decimal number standing in `s@.subrange(from, to)`.
/// Returns its value exactly when the slice is a non-empty run of
/// digits whose value is at most `max`.
pub fn parse_decimal_range(s: &str, from: usize, to: usize, max: u64) -> (r: Option<u64>)
    requires
        from <= to <= s@.len(),
    ensures
        match r {
            Some(v) => {
                &&& from < to
                &&& all_digits(s@.subrange(from as int, to as int))
                &&& dec_value(s@.subrange(from as int, to as int)) == v
                &&& v <= max
            },
            None => !{
                &&& from < to
                &&& all_digits(s@.subrange(from as int, to as int))
                &&& dec_value(s@.subrange(from as int, to as int)) <= max
            },
        },
{
    let ghost whole = s@.subrange(from as int, to as int);
    if from >= to {
        return None;
    }
    let mut v: u64 = 0;
    let mut i: usize = from;
    while i < to
        invariant
            from <= i <= to <= s@.len(),
            whole == s@.subrange(from as int, to as int),
            all_digits(s@.subrange(from as int, i as int)),
            v == dec_value(s@.subrange(from as int, i as int)),
            v <= max,
        decreases to - i,
    {
        let c = s.get_char(i);
        let cv = c as u32;
        let ghost pre = s@.subrange(from as int, i as int);
        let ghost cur = s@.subrange(from as int, i as int + 1);
        proof {
            assert(cur.drop_last() =~= pre);
            assert(cur.last() == s@[i as int]);
        }
        if cv < 48 || cv > 57 {
            proof {
                assert(whole[i as int - from] == s@[i as int]);
                assert(!is_digit(whole[i as int - from]));
            }
            return None;
        }
        let d: u64 = ((cv - 48) as u64);
        let wide: u128 = (v as u128) * 10 + (d as u128);
        if wide > max as u128 {
            proof {
                assert(all_digits(cur));
                assert(dec_value(cur) == wide);
                if all_digits(whole) {
                    lemma_dec_value_prefix(whole, i as int + 1 - from);
                    assert(whole.take(i as int + 1 - from) =~= cur);
                }
            }
            return None;
        }
        v = wide as u64;
        i = i + 1;
        proof {
            assert(all_digits(cur));
        }
    }
    proof {
        assert(s@.subrange(from as int, i as int) =~= whole);
    }
    Some(v)
}

/// Parse a whole string as a decimal number of value at most `max`.
pub fn parse_decimal(s: &str, max: u64) -> (r: Option<u64>)
    ensures
        match r {
            Some(v) => {
                &&& s@.len() > 0
                &&& all_digits(s@)
                &&& dec_value(s@) == v
                &&& v <= max
            },
            None => !(s@.len() > 0 && all_digits(s@) && dec_value(s@) <= max),
        },
{
    let n = s.unicode_len();
    let r = parse_decimal_range(s, 0, n, max);
    proof {
        assert(s@.subrange(0, s@.len() as int) =~= s@);
    }
    r
}

/// The first `'-'` in `s`, if any.
pub open spec fn dash_pos(s: Seq<char>) -> Option<int>
    decreases s.len(),
{
    if s.len() == 0 {
        None
    } else if s[0] == '-' {
        Some(0)
    } else {
        match dash_pos(s.drop_first()) {
            Some(j) => Some(j + 1),
            None => None,
        }
    }
}

pub proof fn lemma_dash_pos(s: Seq<char>)
    ensures
        match dash_pos(s) {
            Some(j) => 0 <= j < s.len() && s[j] == '-'
                && forall|i: int| 0 <= i < j ==> s[i] != '-',
            None => forall|i: int| 0 <= i < s.len() ==> s[i] != '-',
        },
    decreases s.len(),
{
    if s.len() > 0 && s[0] != '-' {
        let t = s.drop_first();
        lemma_dash_pos(t);
        assert(forall|i: int| 0 <= i < t.len() ==> t[i] == s[i + 1]);
        match dash_pos(t) {
            Some(j) => {
                assert(s[j + 1] == t[j]);
                assert forall|i: int| 0 <= i < j + 1 implies s[i] != '-' by {
                    if i > 0 {
                        assert(s[i] == t[i - 1]);
                    }
                }
            },
            None => {
                assert forall|i: int| 0 <= i < s.len() implies s[i] != '-' by {
                    if i > 0 {
                        assert(s[i] == t[i - 1]);
                    }
                }
            },
        }
    }
}

/// What a port specification denotes: a single port, or an inclusive
/// pair, when the string fits the grammar `digits` or `digits-digits`
/// with both values at most 65535. The pair may still be inverted.
pub open spec fn port_spec_value(s: Seq<char>) -> Option<(u16, u16)> {
    match dash_pos(s) {
        None => {
            if s.len() > 0 && all_digits(s) && dec_value(s) <= 65535 {
                Some((dec_value(s) as u16, dec_value(s) as u16))
            } else {
                None
            }
        },
        Some(j) => {
            let a = s.take(j);
            let b = s.skip(j + 1);
            if a.len() > 0 && all_digits(a) && dec_value(a) <= 65535
                && b.len() > 0 && all_digits(b) && dec_value(b) <= 65535 {
                Some((dec_value(a) as u16, dec_value(b) as u16))
            } else {
                None
            }
        },
    }
}

/// A specification that fits the grammar but has its range inverted.
pub open spec fn port_spec_inverted(s: Seq<char>) -> bool {
    match port_spec_value(s) {
        Some((a, b)) => a > b,
        None => false,
    }
}

/// Parse one port specification. `Ok` exactly on strings of the
/// grammar whose range is not inverted; an inverted range (such as
/// `"100-50"`) is rejected as a configuration error of its own.
pub fn parse_port_spec(s: &str) -> (r: Result<PortRange, ConfigError>)
    ensures
        r is Err <==> (port_spec_value(s@) is None || port_spec_inverted(s@)),
        match r {
            Ok(pr) => port_spec_value(s@) == Some((pr.start, pr.end)) && pr.start <= pr.end,
            Err(e) => {
                &&& (e == ConfigError::MalformedPort <==> port_spec_value(s@) is None)
                &&& (e == ConfigError::InvertedPortRange <==> port_spec_inverted(s@))
            },
        },
{
    let n = s.unicode_len();
    let mut dash: Option<usize> = None;
    let mut i: usize = 0;
    while i < n
        invariant
            i <= n == s@.len(),
            match dash {
                Some(j) => j < i && s@[j as int] == '-'
                    && (forall|t: int| 0 <= t < j ==> s@[t] != '-'),
                None => forall|t: int| 0 <= t < i ==> s@[t] != '-',
            },
        decreases n - i,
    {
        if dash.is_none() {
            let c = s.get_char(i);
            if c == '-' {
                dash = Some(i);
            }
        }
        i = i + 1;
    }
    proof {
        lemma_dash_pos(s@);
        match dash {
            Some(j) => {
                assert(dash_pos(s@) == Some(j as int));
            },
            None => {
                assert(dash_pos(s@) is None);
            },
        }
    }
    match dash {
        None => {
            match parse_decimal_range(s, 0, n, 65535) {
                Some(v) => {
                    proof {
                        assert(s@.subrange(0, n as int) =~= s@);
                    }
                    Ok(PortRange { start: v as u16, end: v as u16 })
                },
                None => {
                    proof {
                        assert(s@.subrange(0, n as int) =~= s@);
                    }
                    Err(ConfigError::MalformedPort)
                },
            }
        },
        Some(j) => {
            let a = parse_decimal_range(s, 0, j, 65535);
            let b = parse_decimal_range(s, j + 1, n, 65535);
            proof {
                assert(s@.subrange(0, j as int) =~= s@.take(j as int));
                assert(s@.subrange(j as int + 1, n as int) =~= s@.skip(j as int + 1));
            }
            match (a, b) {
                (Some(va), Some(vb)) => {
                    if va <= vb {
                        Ok(PortRange { start: va as u16, end: vb as u16 })
                    } else {
                        Err(ConfigError::InvertedPortRange)
                    }
                },
                _ => Err(ConfigError::MalformedPort),
            }
        },
    }
}

} // verus!
