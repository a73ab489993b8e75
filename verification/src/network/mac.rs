//! MAC addresses as the API reads and writes them.
use vstd::prelude::*;

verus! {

/// The upper-case hex digit of `n`.
pub open spec fn upper_hex(n: int) -> char {
    if n < 10 {
        ('0' as int + n) as char
    } else {
        ('A' as int + n - 10) as char
    }
}

/// The lower-case hex digit of `n`.
pub open spec fn lower_hex(n: int) -> char {
    if n < 10 {
        ('0' as int + n) as char
    } else {
        ('a' as int + n - 10) as char
    }
}

/// Six bytes written as two hex digits each, joined by colons; `upper`
/// chooses the case of the letters.
pub open spec fn mac_chars(b: Seq<u8>, upper: bool) -> Seq<char> {
    Seq::new(
        17,
        |i: int|
            if i % 3 == 2 {
                ':'
            } else {
                let byte = b[i / 3] as int;
                let n = if i % 3 == 0 {
                    byte / 16
                } else {
                    byte % 16
                };
                if upper {
                    upper_hex(n)
                } else {
                    lower_hex(n)
                }
            },
    )
}

/// The six bytes `mac_address::MacAddress::from_str` reads from a text.
pub uninterp spec fn mac_parsed(s: Seq<char>) -> Option<Seq<u8>>;

/// `mac_address::MacAddress::new(bytes).to_string()`: claims the crate's
/// `Display`, two upper-case hex digits per byte joined by colons.
#[verifier::external_body]
fn display_mac(bytes: [u8; 6]) -> (s: String)
    ensures
        s@ == mac_chars(bytes@, true),
{
    mac_address::MacAddress::new(bytes).to_string()
}

/// `mac_address::MacAddress::from_str`, the bytes taken with `bytes()`:
/// claims the result is the crate's reading of exactly this text, and that
/// six colon-separated pairs of hex digits, in either case, read as those
/// bytes (the crate splits a 17-character text at the colons and reads each
/// piece as a hex number).
#[verifier::external_body]
fn parse_mac(s: &str) -> (r: Option<[u8; 6]>)
    ensures
        match r {
            Some(b) => mac_parsed(s@) == Some(b@),
            None => mac_parsed(s@) is None,
        },
        forall|b: Seq<u8>| #![auto] b.len() == 6 && (s@ == mac_chars(b, true) || s@ == mac_chars(b, false))
            ==> (r is Some && r->0@ == b),
{
    match s.parse::<mac_address::MacAddress>() {
        Ok(m) => Some(m.bytes()),
        Err(_) => None,
    }
}

/// A MAC address.
#[derive(Clone, Copy, Debug)]
pub struct MacAddressWrapper {
    pub bytes: [u8; 6],
}

/// A MAC address value as the database hands it over.
#[derive(Clone, Debug)]
pub enum PgMacValue {
    Binary(Vec<u8>),
    Text(String),
}

/// Why a database value is no MAC address.
#[derive(Clone, Copy, Debug, PartialEq, Eq, Structural)]
pub enum MacDecodeError {
    /// A binary value that is not six bytes long.
    InvalidBytes,
    /// A text value the MAC parser refused.
    InvalidString,
}

pub open spec fn to_lower_ascii(c: char) -> char {
    if 'A' <= c && c <= 'Z' {
        ((c as int) + 32) as char
    } else {
        c
    }
}

pub open spec fn lower_all(s: Seq<char>) -> Seq<char> {
    s.map_values(|c: char| to_lower_ascii(c))
}

proof fn lemma_lower_of_upper(b: Seq<u8>)
    requires
        b.len() == 6,
    ensures
        lower_all(mac_chars(b, true)) =~= mac_chars(b, false),
{
    assert forall|i: int| 0 <= i < 17 implies #[trigger] lower_all(mac_chars(b, true))[i] == mac_chars(b, false)[i] by {
        if i % 3 != 2 {
            let byte = b[i / 3] as int;
            assert(0 <= byte < 256);
            assert(0 <= byte / 16 < 16);
            assert(0 <= byte % 16 < 16);
        }
    }
}

impl MacAddressWrapper {
    /// The six bytes.
    pub fn get_value(&self) -> (b: [u8; 6])
        ensures
            b == self.bytes,
    {
        self.bytes
    }

    /// The form the API writes: lower-case hex pairs joined by colons.
    pub fn to_serialized(&self) -> (s: String)
        ensures
            s@ == mac_chars(self.bytes@, false),
    {
        let upper = display_mac(self.bytes);
        let v = crate::text::chars_of(upper.as_str());
        let mut out: Vec<char> = Vec::new();
        let mut i: usize = 0;
        while i < v.len()
            invariant
                v@ == mac_chars(self.bytes@, true),
                0 <= i <= v@.len(),
                out@ == lower_all(v@.take(i as int)),
            decreases v@.len() - i,
        {
            let c = v[i];
            out.push(ascii_lower(c));
            assert(lower_all(v@.take(i + 1)) =~= lower_all(v@.take(i as int)).push(to_lower_ascii(c)));
            i = i + 1;
        }
        proof {
            assert(v@.take(v@.len() as int) =~= v@);
            lemma_lower_of_upper(self.bytes@);
        }
        crate::text::string_from_chars(&out)
    }

    /// Reads a MAC address the way the API accepts one; `None` is refused
    /// as "Invalid MAC".
    pub fn from_text(s: &str) -> (r: Option<MacAddressWrapper>)
        ensures
            match r {
                Some(m) => mac_parsed(s@) == Some(m.bytes@),
                None => mac_parsed(s@) is None,
            },
    {
        match parse_mac(s) {
            Some(b) => Some(MacAddressWrapper { bytes: b }),
            None => None,
        }
    }

    /// Reads a MAC address from the database: six raw bytes, or text the
    /// MAC parser accepts.
    pub fn decode(value: &PgMacValue) -> (r: Result<MacAddressWrapper, MacDecodeError>)
        ensures
            match value {
                PgMacValue::Binary(b) => match r {
                    Ok(m) => m.bytes@ == b@,
                    Err(e) => e == MacDecodeError::InvalidBytes && b@.len() != 6,
                },
                PgMacValue::Text(t) => match r {
                    Ok(m) => mac_parsed(t@) == Some(m.bytes@),
                    Err(e) => e == MacDecodeError::InvalidString && mac_parsed(t@) is None,
                },
            },
    {
        match value {
            PgMacValue::Binary(b) => {
                if b.len() != 6 {
                    return Err(MacDecodeError::InvalidBytes);
                }
                let a: [u8; 6] = [b[0], b[1], b[2], b[3], b[4], b[5]];
                assert(a@ =~= b@);
                Ok(MacAddressWrapper { bytes: a })
            },
            PgMacValue::Text(t) => match parse_mac(t.as_str()) {
                Some(a) => Ok(MacAddressWrapper { bytes: a }),
                None => Err(MacDecodeError::InvalidString),
            },
        }
    }
}

/// A character in lower case, as `char::to_ascii_lowercase` gives it:
/// `A`-`Z` become `a`-`z` and every other character stays.
fn ascii_lower(c: char) -> (r: char)
    ensures
        r == to_lower_ascii(c),
{
    if 'A' <= c && c <= 'Z' {
        let b: u8 = (c as u32) as u8;
        let l: u8 = b + 32;
        l as char
    } else {
        c
    }
}

} // verus!
