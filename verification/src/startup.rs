//! What the binaries decide before they serve: where a configuration error
//! is, which sockets systemd handed over, what kind of socket a listen
//! address names, whether the database is recent enough, and the
//! encryption key.
use crate::text::fields::{
    decimal_chars,
    decimal_text,
    parse_unsigned,
    split_char,
    split_on,
    trim,
    trimmed,
    unsigned_value,
};
use crate::text::{chars_of, string_of_range};
use vstd::prelude::*;
use vstd::string::StringExecFns;
use vstd::utf8::encode_utf8;

verus! {

/// Name of the configuration file, searched for upward from the working
/// directory.
pub const CONFIG_FILE: &'static str = "vialo.toml";

/// Environment variable naming the configuration file, skipping the search.
pub const CONFIG_ENV: &'static str = "VIALO_CONFIG";

pub open spec fn newline_count(b: Seq<u8>) -> nat
    decreases b.len(),
{
    if b.len() == 0 {
        0
    } else {
        newline_count(b.drop_last()) + if b.last() == 10 {
            1nat
        } else {
            0nat
        }
    }
}

/// The line, counted from one, on which byte `offset` of `text` lies.
pub fn error_line(text: &[u8], offset: usize) -> (line: u64)
    requires
        offset <= text@.len(),
        offset < u64::MAX,
    ensures
        line == newline_count(text@.take(offset as int)) + 1,
{
    let mut count: u64 = 0;
    let mut i: usize = 0;
    while i < offset
        invariant
            offset <= text@.len(),
            offset < u64::MAX,
            0 <= i <= offset,
            count == newline_count(text@.take(i as int)),
            count <= i,
        decreases offset - i,
    {
        assert(text@.take(i + 1).drop_last() =~= text@.take(i as int));
        if text[i] == 10 {
            count = count + 1;
        }
        i = i + 1;
    }
    count + 1
}

/// The message of a configuration error: what went wrong, in which file,
/// and on which line where that is known.
pub open spec fn config_error_chars(message: Seq<char>, source: Seq<char>, line: Option<u64>) -> Seq<char> {
    message + " in "@ + source + match line {
        Some(l) => " around line "@ + decimal_chars(l as nat),
        None => Seq::empty(),
    }
}

/// Writes the message of a configuration error.
pub fn config_error_text(message: &str, source: &str, line: Option<u64>) -> (r: String)
    ensures
        r@ == config_error_chars(message@, source@, line),
{
    let mut s = message.to_string();
    s.append(" in ");
    s.append(source);
    match line {
        Some(l) => {
            s.append(" around line ");
            let d = decimal_text(l);
            s.append(d.as_str());
        },
        None => {},
    }
    proof {
        reveal_strlit(" in ");
        reveal_strlit(" around line ");
    }
    assert(s@ =~= config_error_chars(message@, source@, line));
    s
}

/// The index of the last piece named `name` among the first `n` pieces.
pub open spec fn last_named(names: Seq<Seq<char>>, n: int, name: Seq<char>) -> Option<int>
    decreases n,
{
    if n <= 0 {
        None
    } else if n - 1 < names.len() && names[n - 1] == name {
        Some(n - 1)
    } else {
        last_named(names, n - 1, name)
    }
}

/// The descriptors systemd handed over, as `(public, hooks)`: only when the
/// hand-over is meant for this process, holds at least two sockets, and
/// names both; the descriptors count from 3 in the order of the names.
pub open spec fn activation_spec(
    pid: u32,
    listen_pid: Option<&str>,
    listen_fds: Option<&str>,
    fd_names: Option<&str>,
) -> Option<(int, int)> {
    match (listen_pid, listen_fds) {
        (Some(lp), Some(lf)) => match (unsigned_value(lp@), unsigned_value(lf@)) {
            (Some(p), Some(nfds)) => if p > u32::MAX || p != pid || nfds > usize::MAX || nfds < 2 {
                None
            } else {
                let names = split_on(
                    match fd_names {
                        Some(n) => n@,
                        None => Seq::empty(),
                    },
                    ':',
                );
                let n = if nfds < names.len() {
                    nfds as int
                } else {
                    names.len() as int
                };
                match (last_named(names, n, "public"@), last_named(names, n, "hooks"@)) {
                    (Some(a), Some(b)) => Some((3 + a, 3 + b)),
                    _ => None,
                }
            },
            _ => None,
        },
        _ => None,
    }
}

/// Reads the socket-activation variables (`LISTEN_PID`, `LISTEN_FDS`,
/// `LISTEN_FDNAMES`) for the process `pid`.
pub fn socket_activation_fds(
    pid: u32,
    listen_pid: Option<&str>,
    listen_fds: Option<&str>,
    fd_names: Option<&str>,
) -> (r: Option<(i32, i32)>)
    requires
        fd_names matches Some(n) ==> n@.len() < 0x7000_0000,
    ensures
        match r {
            Some((a, b)) => activation_spec(
                pid,
                listen_pid,
                listen_fds,
                fd_names,
            ) == Some((a as int, b as int)),
            None => activation_spec(
                pid,
                listen_pid,
                listen_fds,
                fd_names,
            ) is None,
        },
{
    let lp = match listen_pid {
        Some(s) => s,
        None => return None,
    };
    let lf = match listen_fds {
        Some(s) => s,
        None => return None,
    };
    let p = match parse_unsigned(lp, 0xffff_ffff) {
        Some(p) => p,
        None => return None,
    };
    if p != pid as u64 {
        return None;
    }
    let nfds = match parse_unsigned(lf, usize::MAX as u64) {
        Some(n) => n,
        None => return None,
    };
    if nfds < 2 {
        return None;
    }
    let names = match fd_names {
        Some(n) => split_char(n, ':'),
        None => split_char("", ':'),
    };
    let ghost name_views = split_on(
        match fd_names {
            Some(n) => n@,
            None => Seq::empty(),
        },
        ':',
    );
    proof {
        reveal_strlit("");
        if fd_names is Some {
            lemma_split_len(fd_names->0@, ':');
        }
        assert(name_views.len() == names@.len());
    }
    let public = String::from_str("public");
    let hooks = String::from_str("hooks");
    let mut pub_fd: Option<i32> = None;
    let mut hooks_fd: Option<i32> = None;
    let mut i: usize = 0;
    while i < names.len() && (i as u64) < nfds
        invariant
            name_views.len() == names@.len(),
            forall|k: int| 0 <= k < names@.len() ==> #[trigger] names@[k]@ == name_views[k],
            names@.len() <= 0x7000_0001,
            public@ == "public"@,
            hooks@ == "hooks"@,
            0 <= i <= names@.len(),
            i <= nfds,
            match pub_fd {
                Some(f) => last_named(name_views, i as int, "public"@) == Some(f - 3),
                None => last_named(name_views, i as int, "public"@) is None,
            },
            match hooks_fd {
                Some(f) => last_named(name_views, i as int, "hooks"@) == Some(f - 3),
                None => last_named(name_views, i as int, "hooks"@) is None,
            },
        decreases names@.len() - i,
    {
        let fd: i32 = 3 + i as i32;
        if names[i] == public {
            pub_fd = Some(fd);
        }
        if names[i] == hooks {
            hooks_fd = Some(fd);
        }
        i = i + 1;
    }
    match (pub_fd, hooks_fd) {
        (Some(a), Some(b)) => Some((a, b)),
        _ => None,
    }
}

proof fn lemma_split_len(s: Seq<char>, sep: char)
    ensures
        split_on(s, sep).len() <= s.len() + 1,
{
    lemma_split_state_len(s, sep);
}

proof fn lemma_split_state_len(s: Seq<char>, sep: char)
    ensures
        split_state_done_len(s, sep) <= s.len(),
    decreases s.len(),
{
    if s.len() > 0 {
        lemma_split_state_len(s.drop_last(), sep);
    }
}

spec fn split_state_done_len(s: Seq<char>, sep: char) -> nat {
    crate::text::fields::split_state(s, sep).0.len()
}

/// What kind of socket a listen address names.
#[derive(Clone, Copy, Debug, PartialEq, Eq, Structural)]
pub enum ListenerKind {
    /// A path: a Unix socket in the file system.
    UnixPath,
    /// `@name`: an abstract Unix socket.
    UnixAbstract,
    /// Anything else: a TCP address.
    Tcp,
}

/// The socket a listen address names, by its first character.
pub fn listener_kind(addr: &str) -> (k: ListenerKind)
    ensures
        addr@.len() > 0 && addr@[0] == '/' ==> k == ListenerKind::UnixPath,
        addr@.len() > 0 && addr@[0] == '@' ==> k == ListenerKind::UnixAbstract,
        !(addr@.len() > 0 && (addr@[0] == '/' || addr@[0] == '@')) ==> k == ListenerKind::Tcp,
{
    let v = chars_of(addr);
    if v.len() > 0 && v[0] == '/' {
        ListenerKind::UnixPath
    } else if v.len() > 0 && v[0] == '@' {
        ListenerKind::UnixAbstract
    } else {
        ListenerKind::Tcp
    }
}

pub open spec fn without_trailing_slashes(s: Seq<char>) -> Seq<char>
    decreases s.len(),
{
    if s.len() > 0 && s.last() == '/' {
        without_trailing_slashes(s.drop_last())
    } else {
        s
    }
}

/// A base URL without its trailing slashes.
pub fn trim_trailing_slashes(url: &str) -> (r: String)
    ensures
        r@ == without_trailing_slashes(url@),
{
    let v = chars_of(url);
    let mut n: usize = v.len();
    assert(v@.subrange(0, n as int) =~= v@);
    while n > 0 && v[n - 1] == '/'
        invariant
            v@ == url@,
            0 <= n <= v@.len(),
            without_trailing_slashes(url@) == without_trailing_slashes(v@.subrange(0, n as int)),
        decreases n,
    {
        assert(v@.subrange(0, n as int).drop_last() =~= v@.subrange(0, n - 1));
        n = n - 1;
    }
    string_of_range(&v, 0, n)
}

/// The oldest database server release the schema supports, as
/// `server_version_num`.
pub const MIN_PG_VERSION: u32 = 180000;

/// Whether the database reports a supported version; `None` where the
/// report is not a number.
pub fn pg_version_supported(server_version_num: &str) -> (r: Option<bool>)
    ensures
        match unsigned_value(server_version_num@) {
            Some(v) => if v <= u32::MAX {
                r == Some(v >= MIN_PG_VERSION)
            } else {
                r is None
            },
            None => r is None,
        },
{
    match parse_unsigned(server_version_num, 0xffff_ffff) {
        Some(v) => Some(v >= MIN_PG_VERSION as u64),
        None => None,
    }
}

/// Why a hex text did not decode.
#[derive(Clone, Copy, Debug, PartialEq, Eq, Structural)]
pub enum HexError {
    /// The byte at `index` is no hex digit.
    InvalidHexCharacter { c: u8, index: usize },
    OddLength,
    /// Only for fixed-size targets; decoding into a vector never gives it.
    InvalidStringLength,
}

pub open spec fn is_hex_digit(b: u8) -> bool {
    (0x30 <= b <= 0x39) || (0x41 <= b <= 0x46) || (0x61 <= b <= 0x66)
}

pub open spec fn hex_value(b: u8) -> int {
    if 0x30 <= b <= 0x39 {
        b - 0x30
    } else if 0x41 <= b <= 0x46 {
        b - 0x41 + 10
    } else {
        b - 0x61 + 10
    }
}

/// What `hex::decode` gives for `data`: odd lengths are refused first; then
/// the first byte that is no hex digit; else each pair of digits is a byte,
/// high digit first.
pub open spec fn hex_decoded(data: Seq<u8>, out: Seq<u8>) -> bool {
    &&& data.len() % 2 == 0
    &&& forall|i: int| 0 <= i < data.len() ==> is_hex_digit(#[trigger] data[i])
    &&& out.len() == data.len() / 2
    &&& forall|i: int| 0 <= i < out.len() ==> #[trigger] out[i] == hex_value(data[2 * i]) * 16 + hex_value(data[2 * i + 1])
}

pub open spec fn hex_refused(data: Seq<u8>, e: HexError) -> bool {
    match e {
        HexError::OddLength => data.len() % 2 == 1,
        HexError::InvalidStringLength => false,
        HexError::InvalidHexCharacter { c, index } => {
            &&& data.len() % 2 == 0
            &&& 0 <= index < data.len()
            &&& data[index as int] == c
            &&& !is_hex_digit(c)
            &&& forall|i: int| 0 <= i < index ==> is_hex_digit(#[trigger] data[i])
        },
    }
}

/// `hex::decode`: claims what the crate's source shows (see `hex_decoded`
/// and `hex_refused`); the error's variants are carried over one for one.
#[verifier::external_body]
fn hex_decode(data: &[u8]) -> (r: Result<Vec<u8>, HexError>)
    ensures
        match r {
            Ok(out) => hex_decoded(data@, out@),
            Err(e) => hex_refused(data@, e),
        },
{
    match hex::decode(data) {
        Ok(v) => Ok(v),
        Err(hex::FromHexError::InvalidHexCharacter { c, index }) => Err(
            HexError::InvalidHexCharacter { c: c as u8, index },
        ),
        Err(hex::FromHexError::OddLength) => Err(HexError::OddLength),
        Err(hex::FromHexError::InvalidStringLength) => Err(HexError::InvalidStringLength),
    }
}

/// Why an encryption key was refused.
#[derive(Clone, Copy, Debug, PartialEq, Eq, Structural)]
pub enum KeyError {
    InvalidHex(HexError),
    /// The key is not 32 bytes (64 hex digits).
    WrongLength,
}

fn key_array(v: &Vec<u8>) -> (k: [u8; 32])
    requires
        v@.len() == 32,
    ensures
        k@ == v@,
{
    let mut k: [u8; 32] = [0u8; 32];
    let mut i: usize = 0;
    while i < 32
        invariant
            v@.len() == 32,
            0 <= i <= 32,
            k@.len() == 32,
            forall|j: int| 0 <= j < i ==> k@[j] == v@[j],
        decreases 32 - i,
    {
        k[i] = v[i];
        i = i + 1;
    }
    assert(k@ =~= v@);
    k
}

/// Reads a 256-bit encryption key from hex text; surrounding white space is
/// ignored.
pub fn decode_encryption_key(text: &str) -> (r: Result<[u8; 32], KeyError>)
    ensures
        match r {
            Ok(k) => hex_decoded(encode_utf8(trimmed(text@)), k@),
            Err(KeyError::InvalidHex(e)) => hex_refused(encode_utf8(trimmed(text@)), e),
            Err(KeyError::WrongLength) => exists|out: Seq<u8>|
                hex_decoded(encode_utf8(trimmed(text@)), out) && out.len() != 32,
        },
{
    let t = trim(text);
    let bytes = t.as_str().as_bytes();
    match hex_decode(bytes) {
        Err(e) => Err(KeyError::InvalidHex(e)),
        Ok(v) => {
            if v.len() != 32 {
                return Err(KeyError::WrongLength);
            }
            let k = key_array(&v);
            Ok(k)
        },
    }
}

} // verus!
