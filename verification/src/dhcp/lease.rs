//! The address pool of the DHCP server.
//!
//! Each realm owns a pool of IPv4 addresses, one row per address. A row is
//! in one of these states:
//! - free:        no device, no expiry or an expiry in the past
//! - leased:      a device, expiry in the future
//! - reclaimable: a device, expiry in the past (the binding stays sticky until reused)
//! - quarantined: no device, expiry in the future (after a DECLINE)
//! - static:      a device, no expiry (never reclaimed)
//!
//! Times are seconds on one clock; a lease ends `lease_secs` after it is granted.
use vstd::prelude::*;

verus! {

/// One address of a realm's pool.
#[derive(Clone, Copy, Debug)]
pub struct LeaseRow {
    pub ip: u32,
    pub realm: u128,
    pub device: Option<u128>,
    pub expires: Option<u64>,
}

/// Result of trying to secure an address for a device.
#[derive(Clone, Copy, Debug, PartialEq, Eq, Structural)]
pub enum ClaimOutcome {
    Granted(u32),
    /// The device already holds a different address than the one it insisted on.
    Mismatch(u32),
    /// Nothing to hand out (pool full, or the requested address can't be granted).
    Unavailable,
}

/// A row that may be handed to a new device: free, or reclaimable.
pub open spec fn claimable(r: LeaseRow, now: u64) -> bool {
    match r.device {
        None => r.expires is None || r.expires->0 <= now,
        Some(_) => r.expires is Some && r.expires->0 <= now,
    }
}

/// Addresses are unique, and a device is bound to at most one address.
pub open spec fn rows_wf(rows: Seq<LeaseRow>) -> bool {
    &&& forall|i: int, j: int| 0 <= i < j < rows.len() ==> #[trigger] rows[i].ip != #[trigger] rows[j].ip
    &&& forall|i: int, j: int|
        0 <= i < rows.len() && 0 <= j < rows.len() && i != j && (#[trigger] rows[i]).device is Some
            ==> rows[i].device != (#[trigger] rows[j]).device
}

pub open spec fn unbound(r: LeaseRow) -> LeaseRow {
    LeaseRow { device: None, expires: None, ..r }
}

pub open spec fn leased_to(r: LeaseRow, device: u128, until: u64) -> LeaseRow {
    LeaseRow { device: Some(device), expires: Some(until), ..r }
}

pub open spec fn expiring(r: LeaseRow, until: u64) -> LeaseRow {
    LeaseRow { expires: Some(until), ..r }
}

/// The rows after a device's bindings in other realms than `realm` are dropped.
pub open spec fn cleared(rows: Seq<LeaseRow>, realm: u128, device: u128) -> Seq<LeaseRow> {
    rows.map_values(
        |r: LeaseRow|
            if r.device == Some(device) && r.realm != realm {
                unbound(r)
            } else {
                r
            },
    )
}

pub open spec fn holds(r: LeaseRow, realm: u128, device: u128) -> bool {
    r.realm == realm && r.device == Some(device)
}

pub open spec fn offerable(r: LeaseRow, realm: u128, now: u64) -> bool {
    r.realm == realm && claimable(r, now)
}

/// Allocation order: untouched rows before reclaimable ones, then by address.
pub open spec fn preferred(a: LeaseRow, b: LeaseRow) -> bool {
    ||| (a.device is None && b.device is Some)
    ||| ((a.device is None) == (b.device is None) && a.ip <= b.ip)
}

pub open spec fn is_best_candidate(rows: Seq<LeaseRow>, i: int, realm: u128, now: u64) -> bool {
    &&& 0 <= i < rows.len()
    &&& offerable(rows[i], realm, now)
    &&& forall|k: int|
        0 <= k < rows.len() && offerable(#[trigger] rows[k], realm, now) ==> preferred(rows[i], rows[k])
}

/// What `claim_ip` does: reuse and extend the device's binding in the realm
/// (a static binding is granted as it is and stays static); else take the
/// requested address if it is free or reclaimable; else (unless the request
/// is enforced) take the best free or reclaimable address. With `enforce`, a
/// binding to another address is a `Mismatch`, and no fallback allocation
/// happens.
pub open spec fn claim_spec(
    rows: Seq<LeaseRow>,
    realm: u128,
    device: u128,
    requested: Option<u32>,
    enforce: bool,
    now: u64,
    until: u64,
) -> (Seq<LeaseRow>, ClaimOutcome) {
    let c = cleared(rows, realm, device);
    if exists|i: int| 0 <= i < c.len() && holds(#[trigger] c[i], realm, device) {
        let i = choose|i: int| 0 <= i < c.len() && holds(#[trigger] c[i], realm, device);
        if enforce && requested != Some(c[i].ip) {
            (c, ClaimOutcome::Mismatch(c[i].ip))
        } else if c[i].expires is None {
            (c, ClaimOutcome::Granted(c[i].ip))
        } else {
            (c.update(i, expiring(c[i], until)), ClaimOutcome::Granted(c[i].ip))
        }
    } else if requested is Some && exists|i: int|
        0 <= i < c.len() && (#[trigger] c[i]).ip == requested->0 && offerable(c[i], realm, now) {
        let i = choose|i: int|
            0 <= i < c.len() && (#[trigger] c[i]).ip == requested->0 && offerable(c[i], realm, now);
        (c.update(i, leased_to(c[i], device, until)), ClaimOutcome::Granted(c[i].ip))
    } else if enforce {
        (c, ClaimOutcome::Unavailable)
    } else if exists|i: int| is_best_candidate(c, i, realm, now) {
        let i = choose|i: int| is_best_candidate(c, i, realm, now);
        (c.update(i, leased_to(c[i], device, until)), ClaimOutcome::Granted(c[i].ip))
    } else {
        (c, ClaimOutcome::Unavailable)
    }
}

/// What `end_lease` does: the device's binding expires now but stays attributed
/// to it; the result is its address.
pub open spec fn end_lease_spec(rows: Seq<LeaseRow>, device: u128, now: u64) -> (
    Seq<LeaseRow>,
    Option<u32>,
) {
    if exists|i: int| 0 <= i < rows.len() && (#[trigger] rows[i]).device == Some(device) {
        let i = choose|i: int| 0 <= i < rows.len() && (#[trigger] rows[i]).device == Some(device);
        (rows.update(i, expiring(rows[i], now)), Some(rows[i].ip))
    } else {
        (rows, None)
    }
}

/// What `quarantine_ip` does: an address bound to `device` is unbound and kept
/// out of the pool until `until`; any other request changes nothing.
pub open spec fn quarantine_spec(rows: Seq<LeaseRow>, device: u128, ip: u32, until: u64) -> (
    Seq<LeaseRow>,
    bool,
) {
    if exists|i: int|
        0 <= i < rows.len() && (#[trigger] rows[i]).ip == ip && rows[i].device == Some(device) {
        let i = choose|i: int|
            0 <= i < rows.len() && (#[trigger] rows[i]).ip == ip && rows[i].device == Some(device);
        (rows.update(i, LeaseRow { device: None, expires: Some(until), ..rows[i] }), true)
    } else {
        (rows, false)
    }
}

/// The address pools of all realms.
pub struct LeaseTable {
    rows: Vec<LeaseRow>,
}

impl View for LeaseTable {
    type V = Seq<LeaseRow>;

    closed spec fn view(&self) -> Seq<LeaseRow> {
        self.rows@
    }
}

proof fn lemma_cleared_wf(rows: Seq<LeaseRow>, realm: u128, device: u128)
    requires
        rows_wf(rows),
    ensures
        rows_wf(cleared(rows, realm, device)),
        cleared(rows, realm, device).len() == rows.len(),
        forall|i: int|
            0 <= i < rows.len() ==> (#[trigger] cleared(rows, realm, device)[i]).ip == rows[i].ip
                && cleared(rows, realm, device)[i].realm == rows[i].realm,
{
    let c = cleared(rows, realm, device);
    assert forall|i: int, j: int|
        0 <= i < c.len() && 0 <= j < c.len() && i != j && (#[trigger] c[i]).device is Some implies c[i].device
        != (#[trigger] c[j]).device by {
        assert(c[i] == rows[i] || c[i] == unbound(rows[i]));
        assert(c[j] == rows[j] || c[j] == unbound(rows[j]));
    }
}

proof fn lemma_unique_ip(rows: Seq<LeaseRow>, i: int, j: int)
    requires
        rows_wf(rows),
        0 <= i < rows.len(),
        0 <= j < rows.len(),
        rows[i].ip == rows[j].ip,
    ensures
        i == j,
{
    if i < j {
        assert(rows[i].ip != rows[j].ip);
    } else if j < i {
        assert(rows[j].ip != rows[i].ip);
    }
}

proof fn lemma_unique_device(rows: Seq<LeaseRow>, i: int, j: int)
    requires
        rows_wf(rows),
        0 <= i < rows.len(),
        0 <= j < rows.len(),
        rows[i].device is Some,
        rows[i].device == rows[j].device,
    ensures
        i == j,
{
    if i != j {
        assert(rows[i].device != rows[j].device);
    }
}

proof fn lemma_best_unique(rows: Seq<LeaseRow>, i: int, j: int, realm: u128, now: u64)
    requires
        rows_wf(rows),
        is_best_candidate(rows, i, realm, now),
        is_best_candidate(rows, j, realm, now),
    ensures
        i == j,
{
    assert(preferred(rows[i], rows[j]));
    assert(preferred(rows[j], rows[i]));
    lemma_unique_ip(rows, i, j);
}

/// Updating one row to another of the same address and keeping every other
/// binding keeps the table well formed, provided the new binding is fresh.
proof fn lemma_update_wf(rows: Seq<LeaseRow>, i: int, r: LeaseRow)
    requires
        rows_wf(rows),
        0 <= i < rows.len(),
        r.ip == rows[i].ip,
        r.device is None || r.device == rows[i].device || (forall|k: int|
            0 <= k < rows.len() ==> (#[trigger] rows[k]).device != r.device),
    ensures
        rows_wf(rows.update(i, r)),
{
    let u = rows.update(i, r);
    assert forall|a: int, b: int| 0 <= a < b < u.len() implies #[trigger] u[a].ip != #[trigger] u[b].ip by {
        assert(rows[a].ip != rows[b].ip);
    }
    assert forall|a: int, b: int|
        0 <= a < u.len() && 0 <= b < u.len() && a != b && (#[trigger] u[a]).device is Some implies u[a].device
        != (#[trigger] u[b]).device by {
        if a != i && b != i {
            assert(rows[a].device != rows[b].device);
        } else if a == i {
            if r.device == rows[i].device {
                assert(rows[i].device != rows[b].device);
            }
        } else {
            if r.device == rows[i].device && rows[a].device is Some {
                assert(rows[a].device != rows[i].device);
            }
        }
    }
}

fn is_claimable(r: &LeaseRow, now: u64) -> (b: bool)
    ensures
        b == claimable(*r, now),
{
    match r.device {
        None => match r.expires {
            None => true,
            Some(e) => e <= now,
        },
        Some(_) => match r.expires {
            None => false,
            Some(e) => e <= now,
        },
    }
}

fn is_preferred(a: &LeaseRow, b: &LeaseRow) -> (p: bool)
    ensures
        p == preferred(*a, *b),
{
    (a.device.is_none() && b.device.is_some()) || (a.device.is_none() == b.device.is_none() && a.ip
        <= b.ip)
}

fn unbind_elsewhere(rows: &mut Vec<LeaseRow>, realm: u128, device: u128)
    ensures
        final(rows)@ == cleared(old(rows)@, realm, device),
{
    let n = rows.len();
    let ghost orig = rows@;
    let mut i: usize = 0;
    while i < n
        invariant
            n == orig.len(),
            rows@.len() == n,
            0 <= i <= n,
            forall|k: int| 0 <= k < i ==> #[trigger] rows@[k] == cleared(orig, realm, device)[k],
            forall|k: int| i <= k < n ==> #[trigger] rows@[k] == orig[k],
        decreases n - i,
    {
        let r = rows[i];
        if r.device == Some(device) && r.realm != realm {
            rows.set(i, LeaseRow { device: None, expires: None, ..r });
        }
        i = i + 1;
    }
    assert(rows@ =~= cleared(orig, realm, device));
}

fn find_held(rows: &Vec<LeaseRow>, realm: u128, device: u128) -> (r: Option<usize>)
    ensures
        r matches Some(i) ==> i < rows@.len() && holds(rows@[i as int], realm, device),
        r is None ==> forall|i: int| 0 <= i < rows@.len() ==> !holds(#[trigger] rows@[i], realm, device),
{
    let mut i: usize = 0;
    while i < rows.len()
        invariant
            0 <= i <= rows@.len(),
            forall|k: int| 0 <= k < i ==> !holds(#[trigger] rows@[k], realm, device),
        decreases rows@.len() - i,
    {
        if rows[i].realm == realm && rows[i].device == Some(device) {
            return Some(i);
        }
        i = i + 1;
    }
    None
}

fn find_offerable_ip(rows: &Vec<LeaseRow>, realm: u128, ip: u32, now: u64) -> (r: Option<usize>)
    ensures
        r matches Some(i) ==> i < rows@.len() && rows@[i as int].ip == ip && offerable(
            rows@[i as int],
            realm,
            now,
        ),
        r is None ==> forall|i: int|
            0 <= i < rows@.len() ==> !((#[trigger] rows@[i]).ip == ip && offerable(rows@[i], realm, now)),
{
    let mut i: usize = 0;
    while i < rows.len()
        invariant
            0 <= i <= rows@.len(),
            forall|k: int|
                0 <= k < i ==> !((#[trigger] rows@[k]).ip == ip && offerable(rows@[k], realm, now)),
        decreases rows@.len() - i,
    {
        if rows[i].ip == ip && rows[i].realm == realm && is_claimable(&rows[i], now) {
            return Some(i);
        }
        i = i + 1;
    }
    None
}

fn find_best(rows: &Vec<LeaseRow>, realm: u128, now: u64) -> (r: Option<usize>)
    ensures
        r matches Some(i) ==> is_best_candidate(rows@, i as int, realm, now),
        r is None ==> forall|i: int| 0 <= i < rows@.len() ==> !offerable(#[trigger] rows@[i], realm, now),
{
    let mut best: Option<usize> = None;
    let mut i: usize = 0;
    while i < rows.len()
        invariant
            0 <= i <= rows@.len(),
            best matches Some(b) ==> b < i && offerable(rows@[b as int], realm, now) && forall|k: int|
                0 <= k < i && offerable(#[trigger] rows@[k], realm, now) ==> preferred(rows@[b as int], rows@[k]),
            best is None ==> forall|k: int| 0 <= k < i ==> !offerable(#[trigger] rows@[k], realm, now),
        decreases rows@.len() - i,
    {
        if rows[i].realm == realm && is_claimable(&rows[i], now) {
            match best {
                None => {
                    best = Some(i);
                },
                Some(b) => {
                    if !is_preferred(&rows[b], &rows[i]) {
                        proof {
                            // preferred is total: the new row beats every earlier one
                            assert forall|k: int|
                                0 <= k < i + 1 && offerable(#[trigger] rows@[k], realm, now) implies preferred(
                                rows@[i as int],
                                rows@[k],
                            ) by {
                                if k < i {
                                    assert(preferred(rows@[b as int], rows@[k]));
                                }
                            }
                        }
                        best = Some(i);
                    }
                },
            }
        }
        i = i + 1;
    }
    best
}

impl LeaseTable {
    #[verifier::type_invariant]
    closed spec fn inv(self) -> bool {
        rows_wf(self.rows@)
    }

    /// A table holding `rows`, if they are well formed: no address twice and
    /// no device bound to two addresses.
    pub fn from_rows(rows: Vec<LeaseRow>) -> (r: Option<LeaseTable>)
        ensures
            r is Some <==> rows_wf(rows@),
            r matches Some(t) ==> t@ == rows@,
    {
        let n = rows.len();
        let mut i: usize = 0;
        while i < n
            invariant
                n == rows@.len(),
                0 <= i <= n,
                forall|a: int, b: int| 0 <= a < i && a < b < n ==> #[trigger] rows@[a].ip != #[trigger] rows@[b].ip,
                forall|a: int, b: int|
                    0 <= a < i && 0 <= b < n && a != b && (#[trigger] rows@[a]).device is Some ==> rows@[a].device
                        != (#[trigger] rows@[b]).device,
            decreases n - i,
        {
            let mut j: usize = 0;
            while j < n
                invariant
                    n == rows@.len(),
                    0 <= i < n,
                    0 <= j <= n,
                    forall|a: int, b: int| 0 <= a < i && a < b < n ==> #[trigger] rows@[a].ip != #[trigger] rows@[b].ip,
                    forall|a: int, b: int|
                        0 <= a < i && 0 <= b < n && a != b && (#[trigger] rows@[a]).device is Some ==> rows@[a].device
                            != (#[trigger] rows@[b]).device,
                    forall|b: int| i < b < j ==> rows@[i as int].ip != #[trigger] rows@[b].ip,
                    forall|b: int|
                        0 <= b < j && b != i && rows@[i as int].device is Some ==> rows@[i as int].device
                            != (#[trigger] rows@[b]).device,
                decreases n - j,
            {
                if j != i {
                    if j > i && rows[i].ip == rows[j].ip {
                        proof {
                            assert(!rows_wf(rows@)) by {
                                assert(rows@[i as int].ip == rows@[j as int].ip);
                            }
                        }
                        return None;
                    }
                    if rows[i].device.is_some() && rows[i].device == rows[j].device {
                        proof {
                            assert(!rows_wf(rows@)) by {
                                assert(rows@[i as int].device == rows@[j as int].device);
                            }
                        }
                        return None;
                    }
                }
                j = j + 1;
            }
            i = i + 1;
        }
        Some(LeaseTable { rows })
    }

    /// The rows of all pools.
    pub fn rows(&self) -> (r: &Vec<LeaseRow>)
        ensures
            r@ == self@,
    {
        &self.rows
    }

    /// Secure an address for `device` in `realm` (see `claim_spec`). Bindings
    /// the device holds in other realms are dropped first: a device that moved
    /// realms must not keep its old address.
    pub fn claim_ip(
        &mut self,
        realm: u128,
        device: u128,
        requested: Option<u32>,
        enforce_requested: bool,
        now: u64,
        lease_secs: u64,
    ) -> (outcome: ClaimOutcome)
        requires
            now + lease_secs <= u64::MAX,
        ensures
            (final(self)@, outcome) == claim_spec(
                old(self)@,
                realm,
                device,
                requested,
                enforce_requested,
                now,
                (now + lease_secs) as u64,
            ),
    {
        proof {
            use_type_invariant(&*self);
        }
        let until: u64 = now + lease_secs;
        let mut rows: Vec<LeaseRow> = Vec::new();
        std::mem::swap(&mut rows, &mut self.rows);
        let ghost orig = rows@;
        unbind_elsewhere(&mut rows, realm, device);
        let ghost c = rows@;
        proof {
            lemma_cleared_wf(orig, realm, device);
        }
        assert(c == cleared(orig, realm, device));
        match find_held(&rows, realm, device) {
            Some(i) => {
                proof {
                    let j = choose|j: int| 0 <= j < c.len() && holds(#[trigger] c[j], realm, device);
                    lemma_unique_device(c, i as int, j);
                }
                let r = rows[i];
                if enforce_requested && requested != Some(r.ip) {
                    self.rows = rows;
                    return ClaimOutcome::Mismatch(r.ip);
                }
                if r.expires.is_none() {
                    self.rows = rows;
                    return ClaimOutcome::Granted(r.ip);
                }
                proof {
                    lemma_update_wf(c, i as int, expiring(c[i as int], until));
                }
                rows.set(i, LeaseRow { expires: Some(until), ..r });
                self.rows = rows;
                return ClaimOutcome::Granted(r.ip);
            },
            None => {},
        }
        if let Some(ip) = requested {
            match find_offerable_ip(&rows, realm, ip, now) {
                Some(i) => {
                    proof {
                        let j = choose|j: int|
                            0 <= j < c.len() && (#[trigger] c[j]).ip == ip && offerable(c[j], realm, now);
                        lemma_unique_ip(c, i as int, j);
                        assert forall|k: int| 0 <= k < c.len() implies (#[trigger] c[k]).device != Some(
                            device,
                        ) by {
                            if c[k].device == Some(device) {
                                assert(!holds(c[k], realm, device));
                                assert(c[k] == orig[k] || c[k] == unbound(orig[k]));
                            }
                        }
                        lemma_update_wf(c, i as int, leased_to(c[i as int], device, until));
                    }
                    let r = rows[i];
                    rows.set(i, LeaseRow { device: Some(device), expires: Some(until), ..r });
                    self.rows = rows;
                    return ClaimOutcome::Granted(ip);
                },
                None => {},
            }
        }
        if enforce_requested {
            self.rows = rows;
            return ClaimOutcome::Unavailable;
        }
        match find_best(&rows, realm, now) {
            Some(i) => {
                proof {
                    let j = choose|j: int| is_best_candidate(c, j, realm, now);
                    lemma_best_unique(c, i as int, j, realm, now);
                    assert forall|k: int| 0 <= k < c.len() implies (#[trigger] c[k]).device != Some(device) by {
                        if c[k].device == Some(device) {
                            assert(!holds(c[k], realm, device));
                            assert(c[k] == orig[k] || c[k] == unbound(orig[k]));
                        }
                    }
                    lemma_update_wf(c, i as int, leased_to(c[i as int], device, until));
                }
                let r = rows[i];
                rows.set(i, LeaseRow { device: Some(device), expires: Some(until), ..r });
                self.rows = rows;
                ClaimOutcome::Granted(r.ip)
            },
            None => {
                self.rows = rows;
                ClaimOutcome::Unavailable
            },
        }
    }

    /// End the device's lease while keeping the binding (sticky): the row stays
    /// attributed to the device but becomes reclaimable. Returns the address.
    pub fn end_lease(&mut self, device: u128, now: u64) -> (released: Option<u32>)
        ensures
            (final(self)@, released) == end_lease_spec(old(self)@, device, now),
    {
        proof {
            use_type_invariant(&*self);
        }
        let mut rows: Vec<LeaseRow> = Vec::new();
        std::mem::swap(&mut rows, &mut self.rows);
        let ghost orig = rows@;
        let mut i: usize = 0;
        while i < rows.len()
            invariant
                rows@ == orig,
                old(self)@ == orig,
                rows_wf(orig),
                0 <= i <= rows@.len(),
                forall|k: int| 0 <= k < i ==> (#[trigger] rows@[k]).device != Some(device),
            decreases rows@.len() - i,
        {
            if rows[i].device == Some(device) {
                let r = rows[i];
                proof {
                    let j = choose|j: int| 0 <= j < orig.len() && (#[trigger] orig[j]).device == Some(device);
                    lemma_unique_device(orig, i as int, j);
                    lemma_update_wf(orig, i as int, expiring(orig[i as int], now));
                }
                rows.set(i, LeaseRow { expires: Some(now), ..r });
                self.rows = rows;
                return Some(r.ip);
            }
            i = i + 1;
        }
        self.rows = rows;
        None
    }

    /// Quarantine an address the client declined (found in use elsewhere):
    /// unbind it but keep it out of the pool for `probation_secs`. Only acts
    /// when the address is bound to `device`, so a spoofed decline can't strip
    /// other devices' leases. Returns whether a row was quarantined.
    pub fn quarantine_ip(&mut self, device: u128, ip: u32, now: u64, probation_secs: u64) -> (done:
        bool)
        requires
            now + probation_secs <= u64::MAX,
        ensures
            (final(self)@, done) == quarantine_spec(
                old(self)@,
                device,
                ip,
                (now + probation_secs) as u64,
            ),
    {
        proof {
            use_type_invariant(&*self);
        }
        let until: u64 = now + probation_secs;
        let mut rows: Vec<LeaseRow> = Vec::new();
        std::mem::swap(&mut rows, &mut self.rows);
        let ghost orig = rows@;
        let mut i: usize = 0;
        while i < rows.len()
            invariant
                rows@ == orig,
                old(self)@ == orig,
                until == now + probation_secs,
                rows_wf(orig),
                0 <= i <= rows@.len(),
                forall|k: int|
                    0 <= k < i ==> !((#[trigger] rows@[k]).ip == ip && rows@[k].device == Some(device)),
            decreases rows@.len() - i,
        {
            if rows[i].ip == ip && rows[i].device == Some(device) {
                let r = rows[i];
                proof {
                    let j = choose|j: int|
                        0 <= j < orig.len() && (#[trigger] orig[j]).ip == ip && orig[j].device == Some(device);
                    lemma_unique_ip(orig, i as int, j);
                    lemma_update_wf(orig, i as int, LeaseRow { device: None, expires: Some(until), ..r });
                }
                rows.set(i, LeaseRow { device: None, expires: Some(until), ..r });
                self.rows = rows;
                return true;
            }
            i = i + 1;
        }
        self.rows = rows;
        false
    }
}

} // verus!
