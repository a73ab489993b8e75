//! Identifiers and query parameters shared by the HTTP handlers.
use crate::text::same_text;
use vstd::prelude::*;

verus! {

/// The lower-case hex digit of `n`.
pub open spec fn hex_digit_char(n: int) -> char {
    if n < 10 {
        ('0' as int + n) as char
    } else {
        ('a' as int + n - 10) as char
    }
}

/// The `k`-th of the 32 hex digits of `id`, most significant first.
pub open spec fn nibble(id: u128, k: int) -> int {
    (id as int / vstd::arithmetic::power2::pow2((4 * (31 - k)) as nat) as int) % 16
}

pub open spec fn hex_run(id: u128, from: int, to: int) -> Seq<char> {
    Seq::new((to - from) as nat, |i: int| hex_digit_char(nibble(id, from + i)))
}

/// A UUID written as `uuid` writes it: 32 lower-case hex digits in groups
/// of 8, 4, 4, 4 and 12, joined by hyphens.
pub open spec fn uuid_chars(id: u128) -> Seq<char> {
    hex_run(id, 0, 8) + seq!['-'] + hex_run(id, 8, 12) + seq!['-'] + hex_run(id, 12, 16) + seq!['-']
        + hex_run(id, 16, 20) + seq!['-'] + hex_run(id, 20, 32)
}

/// The UUID `uuid::Uuid::parse_str` reads from a text, as its 128-bit value.
pub uninterp spec fn uuid_parsed(s: Seq<char>) -> Option<u128>;

/// `uuid::Uuid::parse_str`, the value taken with `as_u128`: claims the
/// result is the crate's reading of exactly this text, and that the crate's
/// own hyphenated writing of a UUID reads back as that UUID (the crate
/// documents that it parses every format it writes).
#[verifier::external_body]
fn parse_uuid(s: &str) -> (r: Option<u128>)
    ensures
        r == uuid_parsed(s@),
        forall|id: u128| s@ == uuid_chars(id) ==> r == Some(id),
{
    match uuid::Uuid::parse_str(s) {
        Ok(u) => Some(u.as_u128()),
        Err(_) => None,
    }
}

/// `uuid::Uuid::from_u128(id).to_string()`: claims the hyphenated
/// lower-case form the crate's `Display` writes.
#[verifier::external_body]
pub fn uuid_text(id: u128) -> (s: String)
    ensures
        s@ == uuid_chars(id),
{
    uuid::Uuid::from_u128(id).to_string()
}

/// One account, or all of them.
#[derive(Clone, Copy, Debug, PartialEq, Eq, Structural)]
pub enum IdOrAllQuery {
    Id(u128),
    All,
}

/// One account, the caller's own (the default), or all of them.
#[derive(Clone, Copy, Debug, PartialEq, Eq, Structural)]
pub enum IdOrMeOrAllQuery {
    Id(u128),
    Me,
    All,
}

/// One account, or the caller's own (the default).
#[derive(Clone, Copy, Debug, PartialEq, Eq, Structural)]
pub enum IdOrMeQuery {
    Id(u128),
    Me,
}

impl Default for IdOrMeOrAllQuery {
    fn default() -> (q: Self)
        ensures
            q == IdOrMeOrAllQuery::Me,
    {
        IdOrMeOrAllQuery::Me
    }
}

impl Default for IdOrMeQuery {
    fn default() -> (q: Self)
        ensures
            q == IdOrMeQuery::Me,
    {
        IdOrMeQuery::Me
    }
}

pub open spec fn resolve_spec(q: IdOrMeOrAllQuery, current_user_id: u128) -> IdOrAllQuery {
    match q {
        IdOrMeOrAllQuery::Id(id) => IdOrAllQuery::Id(id),
        IdOrMeOrAllQuery::Me => IdOrAllQuery::Id(current_user_id),
        IdOrMeOrAllQuery::All => IdOrAllQuery::All,
    }
}

impl IdOrMeOrAllQuery {
    /// Replaces "me" by the caller's id.
    pub fn resolve(&self, current_user_id: u128) -> (r: IdOrAllQuery)
        ensures
            r == resolve_spec(*self, current_user_id),
    {
        match self {
            IdOrMeOrAllQuery::Id(id) => IdOrAllQuery::Id(*id),
            IdOrMeOrAllQuery::Me => IdOrAllQuery::Id(current_user_id),
            IdOrMeOrAllQuery::All => IdOrAllQuery::All,
        }
    }

    /// Reads the parameter: `all`, `me`, or a UUID.
    pub fn parse(s: &str) -> (r: Option<IdOrMeOrAllQuery>)
        ensures
            s@ == "all"@ ==> r == Some(IdOrMeOrAllQuery::All),
            s@ == "me"@ ==> r == Some(IdOrMeOrAllQuery::Me),
            s@ != "all"@ && s@ != "me"@ ==> r == match uuid_parsed(s@) {
                Some(id) => Some(IdOrMeOrAllQuery::Id(id)),
                None => None,
            },
    {
        proof {
            reveal_strlit("all");
            reveal_strlit("me");
            assert("all"@.len() != "me"@.len());
        }
        if same_text(s, "all") {
            Some(IdOrMeOrAllQuery::All)
        } else if same_text(s, "me") {
            Some(IdOrMeOrAllQuery::Me)
        } else {
            match parse_uuid(s) {
                Some(id) => Some(IdOrMeOrAllQuery::Id(id)),
                None => None,
            }
        }
    }
}

impl IdOrAllQuery {
    /// Reads the parameter: `all`, or a UUID.
    pub fn parse(s: &str) -> (r: Option<IdOrAllQuery>)
        ensures
            s@ == "all"@ ==> r == Some(IdOrAllQuery::All),
            s@ != "all"@ ==> r == match uuid_parsed(s@) {
                Some(id) => Some(IdOrAllQuery::Id(id)),
                None => None,
            },
    {
        if same_text(s, "all") {
            Some(IdOrAllQuery::All)
        } else {
            match parse_uuid(s) {
                Some(id) => Some(IdOrAllQuery::Id(id)),
                None => None,
            }
        }
    }
}

impl IdOrMeQuery {
    /// Reads the parameter: `me`, or a UUID.
    pub fn parse(s: &str) -> (r: Option<IdOrMeQuery>)
        ensures
            s@ == "me"@ ==> r == Some(IdOrMeQuery::Me),
            s@ != "me"@ ==> r == match uuid_parsed(s@) {
                Some(id) => Some(IdOrMeQuery::Id(id)),
                None => None,
            },
    {
        if same_text(s, "me") {
            Some(IdOrMeQuery::Me)
        } else {
            match parse_uuid(s) {
                Some(id) => Some(IdOrMeQuery::Id(id)),
                None => None,
            }
        }
    }

    /// Replaces "me" by the caller's id.
    pub fn resolve(&self, current_user_id: u128) -> (id: u128)
        ensures
            id == match *self {
                IdOrMeQuery::Id(i) => i,
                IdOrMeQuery::Me => current_user_id,
            },
    {
        match self {
            IdOrMeQuery::Id(i) => *i,
            IdOrMeQuery::Me => current_user_id,
        }
    }
}

/// Whether an account is a person or a group.
#[derive(Clone, Copy, Debug, PartialEq, Eq, Structural)]
pub enum AccountType {
    Person,
    Group,
}

/// What can be bought with credits.
#[derive(Clone, Copy, Debug, PartialEq, Eq, Structural)]
pub enum ProductType {
    PrinterColor,
    PrinterBw,
    Bookable,
}

/// Paging of a listing.
#[derive(Clone, Copy, Debug, PartialEq, Eq, Structural)]
pub struct ListOptions {
    pub page: Option<i64>,
    pub limit: Option<i64>,
}

/// Paging of a listing with a search text.
#[derive(Clone, Debug)]
pub struct SearchableListOptions {
    pub page: Option<i64>,
    pub limit: Option<i64>,
    pub search: Option<String>,
}

/// Listing someone else's things, or everybody's, needs the managing role;
/// one's own never does.
pub fn listing_needs_role(resolved: IdOrAllQuery, current_user_id: u128) -> (b: bool)
    ensures
        b == (resolved != IdOrAllQuery::Id(current_user_id)),
{
    match resolved {
        IdOrAllQuery::Id(id) => id != current_user_id,
        IdOrAllQuery::All => true,
    }
}

} // verus!
