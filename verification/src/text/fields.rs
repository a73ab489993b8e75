//! Trimming, splitting, and reading and writing decimal numbers, as std's
//! `str::trim`, `str::split` with a character, `str::parse` for unsigned
//! integers and `to_string` on them do.
use super::{chars_of, string_from_chars, string_of_range};
use vstd::prelude::*;

verus! {

/// Unicode White_Space, the property `char::is_whitespace` decides: the
/// controls U+0009 to U+000D, the space, U+0085, the no-break space, the
/// Ogham space mark, the spaces U+2000 to U+200A, the line and paragraph
/// separators, the narrow no-break space, the medium mathematical space and
/// the ideographic space.
pub open spec fn white_space(c: char) -> bool {
    ||| ('\u{9}' <= c && c <= '\u{d}')
    ||| c == ' '
    ||| c == '\u{85}'
    ||| c == '\u{a0}'
    ||| c == '\u{1680}'
    ||| ('\u{2000}' <= c && c <= '\u{200a}')
    ||| c == '\u{2028}'
    ||| c == '\u{2029}'
    ||| c == '\u{202f}'
    ||| c == '\u{205f}'
    ||| c == '\u{3000}'
}

/// Whether `c` is white space, as `char::is_whitespace` answers.
fn is_white_space(c: char) -> (b: bool)
    ensures
        b == white_space(c),
{
    ('\u{9}' <= c && c <= '\u{d}') || c == ' ' || c == '\u{85}' || c == '\u{a0}' || c == '\u{1680}'
        || ('\u{2000}' <= c && c <= '\u{200a}') || c == '\u{2028}' || c == '\u{2029}' || c
        == '\u{202f}' || c == '\u{205f}' || c == '\u{3000}'
}

pub open spec fn trim_front(s: Seq<char>) -> Seq<char>
    decreases s.len(),
{
    if s.len() > 0 && white_space(s[0]) {
        trim_front(s.drop_first())
    } else {
        s
    }
}

pub open spec fn trim_back(s: Seq<char>) -> Seq<char>
    decreases s.len(),
{
    if s.len() > 0 && white_space(s.last()) {
        trim_back(s.drop_last())
    } else {
        s
    }
}

/// `s` without leading and trailing white space.
pub open spec fn trimmed(s: Seq<char>) -> Seq<char> {
    trim_back(trim_front(s))
}

proof fn lemma_trim_front_skip(s: Seq<char>, i: int)
    requires
        0 <= i < s.len(),
        white_space(s[i]),
    ensures
        trim_front(s.subrange(i, s.len() as int)) == trim_front(s.subrange(i + 1, s.len() as int)),
{
    assert(s.subrange(i, s.len() as int).drop_first() =~= s.subrange(i + 1, s.len() as int));
}

proof fn lemma_trim_back_skip(s: Seq<char>, a: int, j: int)
    requires
        0 <= a < j <= s.len(),
        white_space(s[j - 1]),
    ensures
        trim_back(s.subrange(a, j)) == trim_back(s.subrange(a, j - 1)),
{
    assert(s.subrange(a, j).drop_last() =~= s.subrange(a, j - 1));
}

/// `s` without leading and trailing white space.
pub fn trim(s: &str) -> (r: String)
    ensures
        r@ == trimmed(s@),
{
    let v = chars_of(s);
    let n = v.len();
    let mut a: usize = 0;
    assert(v@.subrange(0, n as int) =~= v@);
    while a < n && is_white_space(v[a])
        invariant
            v@ == s@,
            n == v@.len(),
            0 <= a <= n,
            trim_front(v@) == trim_front(v@.subrange(a as int, n as int)),
        decreases n - a,
    {
        proof {
            lemma_trim_front_skip(v@, a as int);
        }
        a = a + 1;
    }
    let ghost front = v@.subrange(a as int, n as int);
    assert(trim_front(front) == front);
    let mut b: usize = n;
    while b > a && is_white_space(v[b - 1])
        invariant
            v@ == s@,
            n == v@.len(),
            0 <= a <= b <= n,
            front == v@.subrange(a as int, n as int),
            trim_back(front) == trim_back(v@.subrange(a as int, b as int)),
        decreases b - a,
    {
        proof {
            lemma_trim_back_skip(v@, a as int, b as int);
        }
        b = b - 1;
    }
    string_of_range(&v, a, b)
}

/// The pieces of `s` between occurrences of `sep`, as they stand so far:
/// the finished pieces and the one being read.
pub open spec fn split_state(s: Seq<char>, sep: char) -> (Seq<Seq<char>>, Seq<char>)
    decreases s.len(),
{
    if s.len() == 0 {
        (Seq::empty(), Seq::empty())
    } else {
        let (done, cur) = split_state(s.drop_last(), sep);
        if s.last() == sep {
            (done.push(cur), Seq::empty())
        } else {
            (done, cur.push(s.last()))
        }
    }
}

/// The pieces of `s` between occurrences of `sep`; there is always one more
/// piece than separators.
pub open spec fn split_on(s: Seq<char>, sep: char) -> Seq<Seq<char>> {
    split_state(s, sep).0.push(split_state(s, sep).1)
}

/// Splits `s` at every `sep`.
pub fn split_char(s: &str, sep: char) -> (r: Vec<String>)
    ensures
        r@.len() == split_on(s@, sep).len(),
        forall|i: int| 0 <= i < r@.len() ==> #[trigger] r@[i]@ == split_on(s@, sep)[i],
{
    let v = chars_of(s);
    let mut done: Vec<String> = Vec::new();
    let mut cur: Vec<char> = Vec::new();
    let mut i: usize = 0;
    while i < v.len()
        invariant
            v@ == s@,
            0 <= i <= v@.len(),
            done@.len() == split_state(v@.take(i as int), sep).0.len(),
            forall|k: int| 0 <= k < done@.len() ==> #[trigger] done@[k]@ == split_state(v@.take(i as int), sep).0[k],
            cur@ == split_state(v@.take(i as int), sep).1,
        decreases v@.len() - i,
    {
        assert(v@.take(i + 1).drop_last() =~= v@.take(i as int));
        if v[i] == sep {
            let piece = string_from_chars(&cur);
            done.push(piece);
            cur = Vec::new();
        } else {
            cur.push(v[i]);
        }
        i = i + 1;
    }
    assert(v@.take(v@.len() as int) =~= v@);
    let last = string_from_chars(&cur);
    done.push(last);
    done
}

pub open spec fn is_digit_char(c: char) -> bool {
    '0' <= c && c <= '9'
}

/// The value of a string of decimal digits.
pub open spec fn digits_value(s: Seq<char>) -> nat
    decreases s.len(),
{
    if s.len() == 0 {
        0
    } else {
        digits_value(s.drop_last()) * 10 + (s.last() as nat - '0' as nat) as nat
    }
}

/// The text after an optional leading `+`.
pub open spec fn unsigned_body(s: Seq<char>) -> Seq<char> {
    if s.len() > 0 && s[0] == '+' {
        s.drop_first()
    } else {
        s
    }
}

pub open spec fn all_digits(d: Seq<char>) -> bool {
    forall|i: int| 0 <= i < d.len() ==> is_digit_char(#[trigger] d[i])
}

/// The digits of an unsigned number as std reads it: an optional `+`, then
/// one or more decimal digits.
pub open spec fn unsigned_digits(s: Seq<char>) -> Option<Seq<char>> {
    if unsigned_body(s).len() > 0 && all_digits(unsigned_body(s)) {
        Some(unsigned_body(s))
    } else {
        None
    }
}

/// The number an unsigned integer parse reads from `s`, before the range check.
pub open spec fn unsigned_value(s: Seq<char>) -> Option<nat> {
    match unsigned_digits(s) {
        Some(d) => Some(digits_value(d)),
        None => None,
    }
}

proof fn lemma_digits_grow(s: Seq<char>, n: int, m: int)
    requires
        0 <= n <= m <= s.len(),
        forall|i: int| 0 <= i < s.len() ==> is_digit_char(#[trigger] s[i]),
    ensures
        digits_value(s.take(n)) <= digits_value(s.take(m)),
    decreases m - n,
{
    if n < m {
        lemma_digits_grow(s, n, m - 1);
        assert(s.take(m).drop_last() =~= s.take(m - 1));
    }
}

/// Reads an unsigned number no greater than `max`, as `str::parse` does for
/// an unsigned type whose largest value is `max`.
pub fn parse_unsigned(s: &str, max: u64) -> (r: Option<u64>)
    ensures
        r matches Some(v) ==> unsigned_value(s@) == Some(v as nat) && v <= max,
        r is None ==> (unsigned_value(s@) matches Some(v) ==> v > max),
{
    let v = chars_of(s);
    let start: usize = if v.len() > 0 && v[0] == '+' {
        1
    } else {
        0
    };
    let ghost d = unsigned_body(s@);
    assert(d =~= v@.subrange(start as int, v@.len() as int));
    if start == v.len() {
        return None;
    }
    let mut value: u64 = 0;
    let mut i: usize = start;
    while i < v.len()
        invariant
            v@ == s@,
            start <= i <= v@.len(),
            d == v@.subrange(start as int, v@.len() as int),
            d == unsigned_body(s@),
            forall|k: int| 0 <= k < i - start ==> is_digit_char(#[trigger] d[k]),
            value == digits_value(d.take(i - start)),
            value <= max,
        decreases v@.len() - i,
    {
        let c = v[i];
        if !('0' <= c && c <= '9') {
            assert(!is_digit_char(d[i - start]));
            assert(!all_digits(d));
            assert(unsigned_digits(s@) is None);
            return None;
        }
        let digit: u64 = (c as u32 - '0' as u32) as u64;
        assert(d.take(i - start + 1).drop_last() =~= d.take(i - start));
        let next: u128 = value as u128 * 10 + digit as u128;
        if next > max as u128 {
            proof {
                if unsigned_digits(s@) is Some {
                    lemma_digits_grow(d, i - start + 1, d.len() as int);
                    assert(d.take(d.len() as int) =~= d);
                }
            }
            return None;
        }
        value = next as u64;
        i = i + 1;
    }
    assert(d.take(d.len() as int) =~= d);
    Some(value)
}

/// The number a signed integer parse reads from `s`, before the range
/// check: a leading `-` and one or more digits, or what an unsigned parse
/// reads.
pub open spec fn signed_value(s: Seq<char>) -> Option<int> {
    if s.len() > 0 && s[0] == '-' {
        let d = s.drop_first();
        if d.len() > 0 && all_digits(d) {
            Some(-(digits_value(d) as int))
        } else {
            None
        }
    } else {
        match unsigned_value(s) {
            Some(v) => Some(v as int),
            None => None,
        }
    }
}

/// Reads an `i32` as `str::parse` does.
pub fn parse_i32(s: &str) -> (r: Option<i32>)
    ensures
        r matches Some(v) ==> signed_value(s@) == Some(v as int),
        r is None ==> (signed_value(s@) matches Some(v) ==> (v < i32::MIN || v > i32::MAX)),
{
    let v = chars_of(s);
    if v.len() > 0 && v[0] == '-' {
        let rest = string_of_range(&v, 1, v.len());
        assert(rest@ =~= s@.drop_first());
        if v.len() == 1 {
            return None;
        }
        let vr = chars_of(rest.as_str());
        if vr.len() > 0 && vr[0] == '+' {
            assert(!is_digit_char(rest@[0]));
            return None;
        }
        assert(unsigned_body(rest@) == rest@);
        match parse_unsigned(rest.as_str(), 0x8000_0000) {
            Some(m) => {
                let n: i64 = -(m as i64);
                Some(n as i32)
            },
            None => None,
        }
    } else {
        match parse_unsigned(s, 0x7fff_ffff) {
            Some(m) => Some(m as i32),
            None => None,
        }
    }
}

pub open spec fn digit_char(d: nat) -> char {
    ('0' as nat + d) as char
}

/// The decimal digits of `n`, without leading zeros.
pub open spec fn decimal_chars(n: nat) -> Seq<char>
    decreases n,
{
    if n < 10 {
        seq![digit_char(n)]
    } else {
        decimal_chars(n / 10).push(digit_char(n % 10))
    }
}

/// `n` written in decimal, as `to_string` writes it.
pub fn decimal_text(n: u64) -> (r: String)
    ensures
        r@ == decimal_chars(n as nat),
{
    let mut m: u64 = n;
    let mut tail: Vec<char> = Vec::new();
    while m >= 10
        invariant
            decimal_chars(n as nat) == decimal_chars(m as nat) + tail@,
        decreases m,
    {
        let d: u64 = m % 10;
        let c: char = char_of_digit(d);
        let ghost before = tail@;
        tail.insert(0, c);
        assert(decimal_chars(m as nat) == decimal_chars((m / 10) as nat).push(c));
        assert(decimal_chars((m / 10) as nat).push(c) + before =~= decimal_chars((m / 10) as nat) + tail@);
        m = m / 10;
    }
    let mut all: Vec<char> = Vec::new();
    all.push(char_of_digit(m));
    let mut i: usize = 0;
    while i < tail.len()
        invariant
            0 <= i <= tail@.len(),
            all@ == seq![digit_char(m as nat)] + tail@.take(i as int),
        decreases tail@.len() - i,
    {
        all.push(tail[i]);
        assert(tail@.take(i + 1) =~= tail@.take(i as int).push(tail@[i as int]));
        i = i + 1;
    }
    assert(tail@.take(tail@.len() as int) =~= tail@);
    assert(all@ =~= decimal_chars(n as nat));
    string_from_chars(&all)
}

fn char_of_digit(d: u64) -> (c: char)
    requires
        d < 10,
    ensures
        c == digit_char(d as nat),
{
    match d {
        0 => '0',
        1 => '1',
        2 => '2',
        3 => '3',
        4 => '4',
        5 => '5',
        6 => '6',
        7 => '7',
        8 => '8',
        _ => '9',
    }
}

} // verus!
