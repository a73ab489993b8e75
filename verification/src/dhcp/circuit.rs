//! The VLAN hint carried in the option 82 Agent Circuit ID.
use crate::text::same_text;
use vstd::prelude::*;
use vstd::utf8::valid_utf8;

verus! {

/// How to derive a VLAN hint from the option 82 Agent Circuit ID.
#[derive(Debug, Clone, Copy, PartialEq, Eq, Structural)]
pub enum CircuitIdMode {
    /// Ignore the circuit ID.
    Off,
    /// ASCII "vlan.module.port" (Cisco-style), leading digits are the VLAN.
    Ascii,
    /// First two bytes as a big-endian u16.
    BinaryU16,
}

impl Default for CircuitIdMode {
    fn default() -> (m: Self)
        ensures
            m == CircuitIdMode::Ascii,
    {
        CircuitIdMode::Ascii
    }
}

/// A configuration value naming no circuit ID mode.
#[derive(Debug, Clone, Copy, PartialEq, Eq, Structural)]
pub struct UnknownCircuitIdMode;

/// The configuration name of each mode.
pub open spec fn mode_named(s: Seq<char>) -> Option<CircuitIdMode> {
    if s == "off"@ {
        Some(CircuitIdMode::Off)
    } else if s == "ascii"@ {
        Some(CircuitIdMode::Ascii)
    } else if s == "binary"@ {
        Some(CircuitIdMode::BinaryU16)
    } else {
        None
    }
}

/// Reads a mode from its configuration name: `off`, `ascii` or `binary`.
pub fn parse_circuit_id_mode(s: &str) -> (r: Result<CircuitIdMode, UnknownCircuitIdMode>)
    ensures
        r matches Ok(m) ==> mode_named(s@) == Some(m),
        r is Err ==> mode_named(s@) is None,
{
    if same_text(s, "off") {
        Ok(CircuitIdMode::Off)
    } else if same_text(s, "ascii") {
        Ok(CircuitIdMode::Ascii)
    } else if same_text(s, "binary") {
        Ok(CircuitIdMode::BinaryU16)
    } else {
        Err(UnknownCircuitIdMode)
    }
}

impl std::str::FromStr for CircuitIdMode {
    type Err = UnknownCircuitIdMode;

    fn from_str(s: &str) -> (r: Result<CircuitIdMode, UnknownCircuitIdMode>)
        ensures
            r matches Ok(m) ==> mode_named(s@) == Some(m),
            r is Err ==> mode_named(s@) is None,
    {
        parse_circuit_id_mode(s)
    }
}

pub open spec fn is_ascii_digit(b: u8) -> bool {
    0x30 <= b <= 0x39
}

/// The number of leading ASCII digits of `s`.
pub open spec fn digit_run(s: Seq<u8>) -> nat
    decreases s.len(),
{
    if s.len() == 0 || !is_ascii_digit(s[0]) {
        0
    } else {
        1 + digit_run(s.drop_first())
    }
}

/// The decimal value of a run of ASCII digits.
pub open spec fn decimal_value(s: Seq<u8>) -> nat
    decreases s.len(),
{
    if s.len() == 0 {
        0
    } else {
        decimal_value(s.drop_last()) * 10 + (s.last() - 0x30) as nat
    }
}

/// The VLAN of an ASCII circuit ID: the decimal number its leading digits
/// spell, if the ID is valid UTF-8, starts with a digit and the number fits
/// an `i32`.
pub open spec fn ascii_vlan(raw: Seq<u8>) -> Option<i32> {
    let digits = raw.take(digit_run(raw) as int);
    if valid_utf8(raw) && digits.len() > 0 && decimal_value(digits) <= i32::MAX {
        Some(decimal_value(digits) as i32)
    } else {
        None
    }
}

/// The VLAN hint that `mode` reads from the circuit ID `raw`.
pub open spec fn circuit_vlan(mode: CircuitIdMode, raw: Seq<u8>) -> Option<i32> {
    match mode {
        CircuitIdMode::Off => None,
        CircuitIdMode::Ascii => ascii_vlan(raw),
        CircuitIdMode::BinaryU16 => if raw.len() >= 2 {
            Some((raw[0] * 256 + raw[1]) as i32)
        } else {
            None
        },
    }
}

/// Whether `bytes` are valid UTF-8.
///
/// Trusted: calls `std::str::from_utf8`, which std documents as failing
/// exactly on byte sequences that are not UTF-8; vstd's `valid_utf8` states
/// that rule.
#[verifier::external_body]
fn is_utf8(bytes: &[u8]) -> (b: bool)
    ensures
        b == valid_utf8(bytes@),
{
    std::str::from_utf8(bytes).is_ok()
}

proof fn lemma_digit_run_facts(s: Seq<u8>)
    ensures
        digit_run(s) <= s.len(),
        forall|k: int| 0 <= k < digit_run(s) ==> is_ascii_digit(#[trigger] s[k]),
        digit_run(s) < s.len() ==> !is_ascii_digit(s[digit_run(s) as int]),
    decreases s.len(),
{
    if s.len() > 0 && is_ascii_digit(s[0]) {
        lemma_digit_run_facts(s.drop_first());
        assert forall|k: int| 0 <= k < digit_run(s) implies is_ascii_digit(#[trigger] s[k]) by {
            if k > 0 {
                assert(s[k] == s.drop_first()[k - 1]);
            }
        }
    }
}

proof fn lemma_digit_run_exact(s: Seq<u8>, n: int)
    requires
        0 <= n <= s.len(),
        forall|k: int| 0 <= k < n ==> is_ascii_digit(#[trigger] s[k]),
        n == s.len() || !is_ascii_digit(s[n]),
    ensures
        digit_run(s) == n,
    decreases n,
{
    if n > 0 {
        assert forall|k: int| 0 <= k < n - 1 implies is_ascii_digit(#[trigger] s.drop_first()[k]) by {
            assert(s.drop_first()[k] == s[k + 1]);
        }
        lemma_digit_run_exact(s.drop_first(), n - 1);
    }
}

proof fn lemma_decimal_monotone(s: Seq<u8>, n: int, m: int)
    requires
        0 <= n <= m <= s.len(),
        forall|k: int| 0 <= k < m ==> is_ascii_digit(#[trigger] s[k]),
    ensures
        decimal_value(s.take(n)) <= decimal_value(s.take(m)),
    decreases m - n,
{
    if n < m {
        lemma_decimal_monotone(s, n, m - 1);
        assert(s.take(m).drop_last() == s.take(m - 1));
    }
}

/// The VLAN hint that `mode` reads from the circuit ID `raw`.
pub fn vlan_from_circuit_id(mode: CircuitIdMode, raw: &[u8]) -> (v: Option<i32>)
    ensures
        v == circuit_vlan(mode, raw@),
{
    match mode {
        CircuitIdMode::Off => None,
        CircuitIdMode::BinaryU16 => {
            if raw.len() < 2 {
                None
            } else {
                let hi: u32 = raw[0] as u32;
                let lo: u32 = raw[1] as u32;
                Some((hi * 256 + lo) as i32)
            }
        },
        CircuitIdMode::Ascii => {
            if !is_utf8(raw) {
                return None;
            }
            let mut value: u64 = 0;
            let mut i: usize = 0;
            while i < raw.len() && 0x30 <= raw[i] && raw[i] <= 0x39
                invariant
                    mode == CircuitIdMode::Ascii,
                    0 <= i <= raw@.len(),
                    valid_utf8(raw@),
                    forall|k: int| 0 <= k < i ==> is_ascii_digit(#[trigger] raw@[k]),
                    value == decimal_value(raw@.take(i as int)),
                    value <= i32::MAX,
                decreases raw@.len() - i,
            {
                let d: u64 = (raw[i] - 0x30) as u64;
                assert(raw@.take(i + 1).drop_last() == raw@.take(i as int));
                let next: u64 = value * 10 + d;
                assert(decimal_value(raw@.take(i + 1)) == next);
                if next > 0x7fff_ffff {
                    proof {
                        lemma_digit_run_facts(raw@);
                        let n = digit_run(raw@) as int;
                        if n < i + 1 {
                            assert(is_ascii_digit(raw@[n]));
                        }
                        lemma_decimal_monotone(raw@, i + 1, n);
                    }
                    return None;
                }
                value = next;
                i = i + 1;
            }
            proof {
                lemma_digit_run_exact(raw@, i as int);
            }
            if i == 0 {
                None
            } else {
                Some(value as i32)
            }
        },
    }
}

} // verus!
