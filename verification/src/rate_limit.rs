//! Rate limiting: which client a request is counted against, how a refusal
//! is answered, and the per-address count of consecutive refusals that
//! raises an alarm.
use crate::http::errors::VialoError;
use crate::text::fields::{split_on, trim, trimmed};
use governor::clock::{Clock, DefaultClock};
use dashmap::DashMap;
use governor::{DefaultKeyedRateLimiter, Quota};
use std::num::NonZeroU32;
use vstd::prelude::*;
use vstd::string::StringExecFns;

verus! {

/// An IP address.
#[derive(Clone, Copy, Debug, PartialEq, Eq, Structural)]
pub enum IpAddress {
    V4(u32),
    V6(u128),
}

/// Consecutive refusals of one address after which an alarm is raised.
pub const STRIKE_THRESHOLD: u32 = 10;

/// The limiters and their budgets.
#[derive(Clone, Copy, Debug, PartialEq, Eq, Structural)]
pub enum LimiterKind {
    /// Every request, by address.
    Global,
    /// Requests of logged-in users, by user.
    Authenticated,
    /// Requests that return credentials, by user.
    Credential,
    /// Credit operations, by user.
    Credits,
    /// Requests without a user, by address.
    Anonymous,
    /// Kiosk PIN attempts, by address.
    KioskPin,
}

pub open spec fn quota_of(k: LimiterKind) -> u32 {
    match k {
        LimiterKind::Global => 120,
        LimiterKind::Authenticated => 200,
        LimiterKind::Credential => 10,
        LimiterKind::Credits => 5,
        LimiterKind::Anonymous => 120,
        LimiterKind::KioskPin => 10,
    }
}

/// Requests per minute a limiter lets through.
pub fn quota_per_minute(k: LimiterKind) -> (n: u32)
    ensures
        n == quota_of(k),
        n > 0,
{
    match k {
        LimiterKind::Global => 120,
        LimiterKind::Authenticated => 200,
        LimiterKind::Credential => 10,
        LimiterKind::Credits => 5,
        LimiterKind::Anonymous => 120,
        LimiterKind::KioskPin => 10,
    }
}

/// What a request is counted against.
#[derive(Clone, Copy, Debug, PartialEq, Eq, Structural)]
pub enum LimitKey {
    User(u128),
    Address(IpAddress),
}

/// The per-user limiters count logged-in users by user and everybody else,
/// in the anonymous limiter, by address.
pub fn limit_key(user_id: Option<u128>, ip: IpAddress) -> (k: LimitKey)
    ensures
        k == match user_id {
            Some(u) => LimitKey::User(u),
            None => LimitKey::Address(ip),
        },
{
    match user_id {
        Some(u) => LimitKey::User(u),
        None => LimitKey::Address(ip),
    }
}

/// The text of the first entry of an `X-Forwarded-For` header: the client
/// the request was forwarded for, trimmed, still to be read as an address.
pub open spec fn forwarded_client(header: Seq<char>) -> Seq<char> {
    trimmed(split_on(header, ',')[0])
}

/// Takes the forwarded-for client out of an `X-Forwarded-For` header.
pub fn forwarded_candidate(header: &str) -> (r: String)
    ensures
        r@ == forwarded_client(header@),
{
    let pieces = crate::text::fields::split_char(header, ',');
    proof {
        lemma_split_nonempty(header@, ',');
    }
    trim(pieces[0].as_str())
}

proof fn lemma_split_nonempty(s: Seq<char>, sep: char)
    ensures
        split_on(s, sep).len() >= 1,
{
}

/// The address a request is counted against: the forwarded client where the
/// header names a readable one, else the peer, else the loopback address.
pub fn client_ip(forwarded: Option<IpAddress>, peer: Option<IpAddress>) -> (ip: IpAddress)
    ensures
        ip == match (forwarded, peer) {
            (Some(f), _) => f,
            (None, Some(p)) => p,
            (None, None) => IpAddress::V4(0x7f00_0001),
        },
{
    match forwarded {
        Some(f) => f,
        None => match peer {
            Some(p) => p,
            None => IpAddress::V4(0x7f00_0001),
        },
    }
}

/// The answer to a request over its limit.
#[derive(Debug)]
pub struct RateLimitRejection {
    pub status: u16,
    /// Seconds the client should wait, for the `Retry-After` header.
    pub retry_after: u64,
    pub body: &'static str,
    /// The limiter that refused the request and the key it counted it
    /// under, where a limiter refused it.
    pub counted: Option<(LimiterKind, LimitKey)>,
}

/// Refuses a request that may be retried in `wait_secs` whole seconds (and
/// a fraction): the client is told to wait one second more (the longest
/// wait there is, where there is no more).
pub fn reject(wait_secs: u64) -> (r: RateLimitRejection)
    ensures
        r.status == 429,
        r.retry_after == (if wait_secs < u64::MAX {
            wait_secs + 1
        } else {
            wait_secs as int
        }),
        r.body@ == "Too many requests"@,
        r.counted is None,
{
    proof {
        reveal_strlit("Too many requests");
    }
    let retry_after = if wait_secs < u64::MAX {
        wait_secs + 1
    } else {
        wait_secs
    };
    RateLimitRejection { status: 429, retry_after, body: "Too many requests", counted: None }
}

/// The key a limiter counts by: users under tag 0, IPv4 addresses under
/// tag 4, IPv6 addresses under tag 6.
pub open spec fn key_of(k: LimitKey) -> (u8, u128) {
    match k {
        LimitKey::User(u) => (0, u),
        LimitKey::Address(IpAddress::V4(a)) => (4, a as u128),
        LimitKey::Address(IpAddress::V6(a)) => (6, a),
    }
}

fn limiter_key(k: LimitKey) -> (t: (u8, u128))
    ensures
        t == key_of(k),
{
    match k {
        LimitKey::User(u) => (0, u),
        LimitKey::Address(IpAddress::V4(a)) => (4, a as u128),
        LimitKey::Address(IpAddress::V6(a)) => (6, a),
    }
}

/// The per-key state of one limiter, as governor keeps it: a keyed rate
/// limiter on the default clock and store.
#[verifier::external_body]
pub struct KeyedLimiter {
    cells: DefaultKeyedRateLimiter<(u8, u128)>,
}

/// The budget per minute a keyed limiter was made with.
pub uninterp spec fn limiter_budget(l: KeyedLimiter) -> u32;

/// `RateLimiter::keyed` (governor) with `Quota::per_minute(n)`: a limiter
/// that lets `n` requests per key through per minute, with none counted yet.
#[verifier::external_body]
fn keyed_limiter_per_minute(n: u32) -> (l: KeyedLimiter)
    requires
        n > 0,
    ensures
        limiter_budget(l) == n,
{
    KeyedLimiter { cells: DefaultKeyedRateLimiter::keyed(Quota::per_minute(NonZeroU32::new(n).unwrap())) }
}

/// `RateLimiter::check_key` (governor): counts one request of `key`, or
/// refuses it with the whole seconds until one may pass, as
/// `NotUntil::wait_time_from` gives them from the clock's present. Whether a
/// request passes depends on the clock and on the requests before it, so
/// nothing is claimed of the result.
#[verifier::external_body]
fn limiter_check(l: &KeyedLimiter, key: (u8, u128)) -> (r: Result<(), u64>) {
    match l.cells.check_key(&key) {
        Ok(()) => Ok(()),
        Err(not_until) => Err(not_until.wait_time_from(DefaultClock::default().now()).as_secs()),
    }
}

/// A rate limiter of one kind, with its budget.
pub struct Limiter {
    pub kind: LimiterKind,
    pub cells: KeyedLimiter,
}

impl Limiter {
    /// A limiter of `kind`, with the budget `quota_per_minute` gives it and
    /// no requests counted yet.
    pub fn new(kind: LimiterKind) -> (l: Limiter)
        ensures
            l.kind == kind,
            limiter_budget(l.cells) == quota_of(kind),
    {
        let n = quota_per_minute(kind);
        Limiter { kind, cells: keyed_limiter_per_minute(n) }
    }
}

/// Counts one request of `key` against `limiter`; a refusal is answered as
/// `reject` answers it.
pub fn check_limit(limiter: &Limiter, key: LimitKey) -> (r: Result<(), RateLimitRejection>)
    ensures
        r matches Err(rej) ==> rej.status == 429 && rej.retry_after >= 1 && rej.body@
            == "Too many requests"@ && rej.counted == Some((limiter.kind, key)),
{
    match limiter_check(&limiter.cells, limiter_key(key)) {
        Ok(()) => Ok(()),
        Err(wait) => {
            let mut rej = reject(wait);
            rej.counted = Some((limiter.kind, key));
            Err(rej)
        },
    }
}

/// The global check of every request, by address. A refusal counts one
/// more consecutive refusal of the address; a request let through leaves
/// the count alone (the observer clears it once the answer succeeds).
pub fn check_global(limiter: &Limiter, strikes: &mut StrikeCounter, ip: IpAddress) -> (r: Result<(), RateLimitRejection>)
    requires
        strikes_of(old(strikes)@, ip) < u32::MAX,
    ensures
        r is Ok ==> final(strikes)@ == old(strikes)@,
        r matches Err(rej) ==> {
            &&& rej.status == 429
            &&& rej.retry_after >= 1
            &&& rej.body@ == "Too many requests"@
            &&& rej.counted == Some((limiter.kind, LimitKey::Address(ip)))
            &&& final(strikes)@ == old(strikes)@.insert(ip, (strikes_of(old(strikes)@, ip) + 1) as u32)
        },
{
    match check_limit(limiter, LimitKey::Address(ip)) {
        Ok(()) => Ok(()),
        Err(rej) => {
            strikes.record_strike(ip);
            Err(rej)
        },
    }
}

/// The limiter a per-user check counts a request in: a logged-in user's
/// in `user_limiter`, anybody else's in `anonymous`.
pub fn pick_limiter<'a>(user_limiter: &'a Limiter, anonymous: &'a Limiter, user_id: Option<u128>) -> (l: &'a Limiter)
    ensures
        *l == (if user_id is Some {
            *user_limiter
        } else {
            *anonymous
        }),
{
    match user_id {
        Some(_) => user_limiter,
        None => anonymous,
    }
}

/// A per-user check: a logged-in user's request is counted by user in
/// `user_limiter`; a request without a user is counted by its address in
/// `anonymous`, and only there, so it is refused only when that limiter
/// refuses the address.
pub fn check_user_or_address(user_limiter: &Limiter, anonymous: &Limiter, user_id: Option<u128>, ip: IpAddress) -> (r:
    Result<(), RateLimitRejection>)
    ensures
        r matches Err(rej) ==> rej.status == 429 && rej.retry_after >= 1 && rej.body@
            == "Too many requests"@,
        r matches Err(rej) ==> rej.counted == Some(
            match user_id {
                Some(u) => (user_limiter.kind, LimitKey::User(u)),
                None => (anonymous.kind, LimitKey::Address(ip)),
            },
        ),
{
    check_limit(pick_limiter(user_limiter, anonymous, user_id), limit_key(user_id, ip))
}

/// The check of a kiosk PIN attempt, by address; a refusal is the error
/// `too_many_requests` with status 429.
pub fn check_kiosk_pin(limiter: &Limiter, ip: IpAddress) -> (r: Result<(), VialoError>)
    ensures
        r matches Err(e) ==> e matches VialoError::AppError(status, code) && status == 429 && code@
            == "too_many_requests"@,
{
    match check_limit(limiter, LimitKey::Address(ip)) {
        Ok(()) => Ok(()),
        Err(_) => Err(VialoError::AppError(429, String::from_str("too_many_requests"))),
    }
}

#[verifier::external_type_specification]
#[verifier::external_body]
#[verifier::reject_recursive_types(K)]
#[verifier::reject_recursive_types(V)]
#[verifier::reject_recursive_types(S)]
pub struct ExDashMap<K, V, S>(DashMap<K, V, S>);

/// What a map of refusal counts holds: a count per key.
pub uninterp spec fn count_entries(m: DashMap<(u8, u128), u32>) -> Map<(u8, u128), u32>;

/// `DashMap::new` (dashmap): an empty map.
#[verifier::external_body]
fn counts_new() -> (fresh: DashMap<(u8, u128), u32>)
    ensures
        count_entries(fresh).dom().is_empty(),
{
    DashMap::new()
}

/// `DashMap::get` (dashmap): the count under `key`, if there is one.
#[verifier::external_body]
fn counts_get(m: &DashMap<(u8, u128), u32>, key: (u8, u128)) -> (r: Option<u32>)
    ensures
        r == (if count_entries(*m).contains_key(key) {
            Some(count_entries(*m)[key])
        } else {
            None
        }),
{
    m.get(&key).map(|v| *v)
}

/// `DashMap::insert` (dashmap): sets the count under `key` in the counter's
/// map, keeping the others.
#[verifier::external_body]
fn counts_insert(c: &mut StrikeCounter, key: (u8, u128), count: u32)
    ensures
        count_entries(final(c).counts) == count_entries(old(c).counts).insert(key, count),
{
    c.counts.insert(key, count);
}

/// The key an address is counted under.
pub open spec fn address_key(ip: IpAddress) -> (u8, u128) {
    key_of(LimitKey::Address(ip))
}

/// The counts by address that a map of counts by key holds.
pub open spec fn counts_by_address(m: Map<(u8, u128), u32>) -> Map<IpAddress, u32> {
    Map::new(|ip: IpAddress| m.contains_key(address_key(ip)), |ip: IpAddress| m[address_key(ip)])
}

proof fn lemma_address_key_injective(a: IpAddress, b: IpAddress)
    ensures
        address_key(a) == address_key(b) ==> a == b,
{
}

proof fn lemma_counts_insert(m: Map<(u8, u128), u32>, ip: IpAddress, v: u32)
    ensures
        counts_by_address(m.insert(address_key(ip), v)) == counts_by_address(m).insert(ip, v),
{
    assert forall|x: IpAddress| #[trigger] counts_by_address(m.insert(address_key(ip), v)).contains_key(x)
        == counts_by_address(m).insert(ip, v).contains_key(x) by {
        lemma_address_key_injective(x, ip);
    }
    assert forall|x: IpAddress| counts_by_address(m.insert(address_key(ip), v)).contains_key(x) implies #[trigger] counts_by_address(
        m.insert(address_key(ip), v),
    )[x] == counts_by_address(m).insert(ip, v)[x] by {
        lemma_address_key_injective(x, ip);
    }
    assert(counts_by_address(m.insert(address_key(ip), v)) =~= counts_by_address(m).insert(ip, v));
}

fn address_key_of(ip: IpAddress) -> (k: (u8, u128))
    ensures
        k == address_key(ip),
{
    limiter_key(LimitKey::Address(ip))
}

/// Consecutive refusals per address.
#[derive(Debug)]
pub struct StrikeCounter {
    counts: DashMap<(u8, u128), u32>,
}

impl View for StrikeCounter {
    type V = Map<IpAddress, u32>;

    closed spec fn view(&self) -> Map<IpAddress, u32> {
        counts_by_address(count_entries(self.counts))
    }
}

/// The strikes of an address; none recorded counts as zero.
pub open spec fn strikes_of(m: Map<IpAddress, u32>, ip: IpAddress) -> u32 {
    if m.contains_key(ip) {
        m[ip]
    } else {
        0
    }
}

impl StrikeCounter {
    /// No strikes anywhere.
    pub fn new() -> (c: StrikeCounter)
        ensures
            c@ == Map::<IpAddress, u32>::empty(),
    {
        let c = StrikeCounter { counts: counts_new() };
        assert(c@ =~= Map::<IpAddress, u32>::empty());
        c
    }

    /// The consecutive refusals of `ip`.
    pub fn strikes(&self, ip: IpAddress) -> (n: u32)
        ensures
            n == strikes_of(self@, ip),
    {
        match counts_get(&self.counts, address_key_of(ip)) {
            Some(n) => n,
            None => 0,
        }
    }

    /// Counts one more refusal of `ip`; returns the new count, and whether it
    /// reached the alarm threshold.
    pub fn record_strike(&mut self, ip: IpAddress) -> (r: (u32, bool))
        requires
            strikes_of(old(self)@, ip) < u32::MAX,
        ensures
            r.0 == strikes_of(old(self)@, ip) + 1,
            r.1 == (r.0 >= STRIKE_THRESHOLD),
            final(self)@ == old(self)@.insert(ip, r.0),
    {
        let key = address_key_of(ip);
        let count: u32 = match counts_get(&self.counts, key) {
            Some(n) => n + 1,
            None => 1,
        };
        proof {
            lemma_counts_insert(count_entries(self.counts), ip, count);
        }
        counts_insert(self, key, count);
        (count, count >= STRIKE_THRESHOLD)
    }

    /// A request that went through clears the refusals of its address; an
    /// address with none recorded stays unrecorded.
    pub fn reset(&mut self, ip: IpAddress)
        ensures
            old(self)@.contains_key(ip) ==> final(self)@ == old(self)@.insert(ip, 0),
            !old(self)@.contains_key(ip) ==> final(self)@ == old(self)@,
    {
        let key = address_key_of(ip);
        match counts_get(&self.counts, key) {
            Some(_) => {
                proof {
                    lemma_counts_insert(count_entries(self.counts), ip, 0);
                }
                counts_insert(self, key, 0);
            },
            None => {},
        }
    }
}

/// What an answer does to the refusal count of its address: a 429 counts
/// one more, a success clears the count, anything else leaves it.
#[derive(Clone, Copy, Debug, PartialEq, Eq, Structural)]
pub enum StrikeUpdate {
    Strike,
    Clear,
    Keep,
}

pub open spec fn strike_update_of(status: u16) -> StrikeUpdate {
    if status == 429 {
        StrikeUpdate::Strike
    } else if 200 <= status < 300 {
        StrikeUpdate::Clear
    } else {
        StrikeUpdate::Keep
    }
}

/// The update an answer with `status` makes.
pub fn strike_update(status: u16) -> (u: StrikeUpdate)
    ensures
        u == strike_update_of(status),
{
    if status == 429 {
        StrikeUpdate::Strike
    } else if 200 <= status && status < 300 {
        StrikeUpdate::Clear
    } else {
        StrikeUpdate::Keep
    }
}

/// Whether the consecutive refusals of `ip` have reached the alarm threshold.
pub fn alarm_due(strikes: &StrikeCounter, ip: IpAddress) -> (b: bool)
    ensures
        b == (strikes_of(strikes@, ip) >= STRIKE_THRESHOLD),
{
    strikes.strikes(ip) >= STRIKE_THRESHOLD
}

/// Applies an answer to the refusal count of its address; returns whether
/// the alarm is due (only ever after a refusal).
pub fn observe_status(strikes: &mut StrikeCounter, ip: IpAddress, status: u16) -> (alarm: bool)
    requires
        status == 429 ==> strikes_of(old(strikes)@, ip) < u32::MAX,
    ensures
        match strike_update_of(status) {
            StrikeUpdate::Strike => final(strikes)@ == old(strikes)@.insert(
                ip,
                (strikes_of(old(strikes)@, ip) + 1) as u32,
            ) && alarm == (strikes_of(old(strikes)@, ip) + 1 >= STRIKE_THRESHOLD),
            StrikeUpdate::Clear => !alarm && (old(strikes)@.contains_key(ip) ==> final(strikes)@ == old(
                strikes,
            )@.insert(ip, 0)) && (!old(strikes)@.contains_key(ip) ==> final(strikes)@ == old(strikes)@),
            StrikeUpdate::Keep => !alarm && final(strikes)@ == old(strikes)@,
        },
{
    match strike_update(status) {
        StrikeUpdate::Strike => {
            let (_, alarm) = strikes.record_strike(ip);
            alarm
        },
        StrikeUpdate::Clear => {
            strikes.reset(ip);
            false
        },
        StrikeUpdate::Keep => false,
    }
}

/// The counter after `n` more refusals of `ip`, as `record_strike` leaves it.
pub open spec fn after_strikes(m: Map<IpAddress, u32>, ip: IpAddress, n: nat) -> Map<IpAddress, u32>
    decreases n,
{
    if n == 0 {
        m
    } else {
        let before = after_strikes(m, ip, (n - 1) as nat);
        before.insert(ip, (strikes_of(before, ip) + 1) as u32)
    }
}

/// Counting starts from zero once a request goes through, and the `n`-th
/// consecutive refusal after that finds `n` strikes: the alarm goes off on
/// the tenth and every later one, never before.
pub proof fn law_strikes_count_consecutive_refusals(m: Map<IpAddress, u32>, ip: IpAddress, n: nat)
    requires
        m.contains_key(ip) ==> m[ip] == 0,
        n < u32::MAX,
    ensures
        strikes_of(after_strikes(m, ip, n), ip) == n,
        (strikes_of(after_strikes(m, ip, n), ip) >= STRIKE_THRESHOLD) == (n >= 10),
    decreases n,
{
    if n > 0 {
        law_strikes_count_consecutive_refusals(m, ip, (n - 1) as nat);
    }
}

} // verus!
