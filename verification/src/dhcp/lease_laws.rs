//! Properties of the address pool that hold across operations.
use super::lease::{
    claim_spec, claimable, cleared, end_lease_spec, expiring, holds, is_best_candidate, leased_to,
    offerable, preferred, quarantine_spec, rows_wf, unbound, ClaimOutcome, LeaseRow,
};
use vstd::prelude::*;

verus! {

proof fn lemma_cleared_facts(rows: Seq<LeaseRow>, realm: u128, device: u128)
    ensures
        cleared(rows, realm, device).len() == rows.len(),
        forall|i: int|
            0 <= i < rows.len() ==> {
                let c = #[trigger] cleared(rows, realm, device)[i];
                &&& c.ip == rows[i].ip
                &&& c.realm == rows[i].realm
                &&& (rows[i].device == Some(device) && rows[i].realm != realm) ==> c == unbound(rows[i])
                &&& !(rows[i].device == Some(device) && rows[i].realm != realm) ==> c == rows[i]
            },
{
}

proof fn lemma_cleared_wf_law(rows: Seq<LeaseRow>, realm: u128, device: u128)
    requires
        rows_wf(rows),
    ensures
        rows_wf(cleared(rows, realm, device)),
{
    lemma_cleared_facts(rows, realm, device);
    let c = cleared(rows, realm, device);
    assert forall|i: int, j: int|
        0 <= i < c.len() && 0 <= j < c.len() && i != j && (#[trigger] c[i]).device is Some implies c[i].device
        != (#[trigger] c[j]).device by {
        assert(rows[i].device != rows[j].device);
    }
    assert forall|i: int, j: int| 0 <= i < j < c.len() implies #[trigger] c[i].ip != #[trigger] c[j].ip by {
        assert(rows[i].ip != rows[j].ip);
    }
}

proof fn lemma_update_keeps_wf(rows: Seq<LeaseRow>, i: int, r: LeaseRow)
    requires
        rows_wf(rows),
        0 <= i < rows.len(),
        r.ip == rows[i].ip,
        r.device is None || r.device == rows[i].device || (forall|k: int|
            0 <= k < rows.len() ==> (#[trigger] rows[k]).device != r.device),
    ensures
        rows_wf(rows.update(i, r)),
{
    let u = rows.update(i, r);
    assert forall|a: int, b: int| 0 <= a < b < u.len() implies #[trigger] u[a].ip != #[trigger] u[b].ip by {
        assert(rows[a].ip != rows[b].ip);
    }
    assert forall|a: int, b: int|
        0 <= a < u.len() && 0 <= b < u.len() && a != b && (#[trigger] u[a]).device is Some implies u[a].device
        != (#[trigger] u[b]).device by {
        if a != i && b != i {
            assert(rows[a].device != rows[b].device);
        } else if a == i {
            if r.device == rows[i].device {
                assert(rows[i].device != rows[b].device);
            }
        } else {
            if r.device == rows[i].device {
                assert(rows[a].device != rows[i].device);
            }
        }
    }
}

proof fn lemma_same_ip(rows: Seq<LeaseRow>, i: int, j: int)
    requires
        rows_wf(rows),
        0 <= i < rows.len(),
        0 <= j < rows.len(),
        rows[i].ip == rows[j].ip,
    ensures
        i == j,
{
    if i < j {
        assert(rows[i].ip != rows[j].ip);
    } else if j < i {
        assert(rows[j].ip != rows[i].ip);
    }
}

/// A device that holds no binding in a cleared table holds none at all in
/// other realms either.
proof fn lemma_no_binding_after_clear(rows: Seq<LeaseRow>, realm: u128, device: u128)
    requires
        forall|i: int|
            0 <= i < cleared(rows, realm, device).len() ==> !holds(
                #[trigger] cleared(rows, realm, device)[i],
                realm,
                device,
            ),
    ensures
        forall|k: int|
            0 <= k < cleared(rows, realm, device).len() ==> (#[trigger] cleared(
                rows,
                realm,
                device,
            )[k]).device != Some(device),
{
    lemma_cleared_facts(rows, realm, device);
    let c = cleared(rows, realm, device);
    assert forall|k: int| 0 <= k < c.len() implies (#[trigger] c[k]).device != Some(device) by {
        assert(!holds(c[k], realm, device));
    }
}

/// Among finitely many offerable rows there is a best one.
proof fn lemma_best_in_prefix(rows: Seq<LeaseRow>, realm: u128, now: u64, n: int) -> (b: int)
    requires
        0 < n <= rows.len(),
        exists|k: int| 0 <= k < n && offerable(#[trigger] rows[k], realm, now),
    ensures
        0 <= b < n,
        offerable(rows[b], realm, now),
        forall|k: int| 0 <= k < n && offerable(#[trigger] rows[k], realm, now) ==> preferred(rows[b], rows[k]),
    decreases n,
{
    if exists|k: int| 0 <= k < n - 1 && offerable(#[trigger] rows[k], realm, now) {
        let b0 = lemma_best_in_prefix(rows, realm, now, n - 1);
        if offerable(rows[n - 1], realm, now) && !preferred(rows[b0], rows[n - 1]) {
            n - 1
        } else {
            b0
        }
    } else {
        n - 1
    }
}

proof fn lemma_best_exists(rows: Seq<LeaseRow>, realm: u128, now: u64)
    requires
        exists|k: int| 0 <= k < rows.len() && offerable(#[trigger] rows[k], realm, now),
    ensures
        exists|i: int| is_best_candidate(rows, i, realm, now),
{
    let b = lemma_best_in_prefix(rows, realm, now, rows.len() as int);
    assert(is_best_candidate(rows, b, realm, now));
}

/// Every claim keeps the pool well formed: no address is bound to two
/// devices, and no device is bound to two addresses.
pub proof fn law_claim_keeps_pool_consistent(
    rows: Seq<LeaseRow>,
    realm: u128,
    device: u128,
    requested: Option<u32>,
    enforce: bool,
    now: u64,
    until: u64,
)
    requires
        rows_wf(rows),
    ensures
        rows_wf(claim_spec(rows, realm, device, requested, enforce, now, until).0),
{
    lemma_cleared_wf_law(rows, realm, device);
    lemma_cleared_facts(rows, realm, device);
    let c = cleared(rows, realm, device);
    if exists|i: int| 0 <= i < c.len() && holds(#[trigger] c[i], realm, device) {
        let i = choose|i: int| 0 <= i < c.len() && holds(#[trigger] c[i], realm, device);
        if c[i].expires is Some {
            lemma_update_keeps_wf(c, i, expiring(c[i], until));
        }
    } else {
        lemma_no_binding_after_clear(rows, realm, device);
        if requested is Some && exists|i: int|
            0 <= i < c.len() && (#[trigger] c[i]).ip == requested->0 && offerable(c[i], realm, now) {
            let i = choose|i: int|
                0 <= i < c.len() && (#[trigger] c[i]).ip == requested->0 && offerable(c[i], realm, now);
            lemma_update_keeps_wf(c, i, leased_to(c[i], device, until));
        } else if !enforce && exists|i: int| is_best_candidate(c, i, realm, now) {
            let i = choose|i: int| is_best_candidate(c, i, realm, now);
            lemma_update_keeps_wf(c, i, leased_to(c[i], device, until));
        }
    }
}

/// A granted address is bound to the device, in the realm, until the new
/// expiry, or for good where the binding is static.
pub proof fn law_granted_address_is_bound(
    rows: Seq<LeaseRow>,
    realm: u128,
    device: u128,
    requested: Option<u32>,
    enforce: bool,
    now: u64,
    until: u64,
    ip: u32,
)
    requires
        rows_wf(rows),
        claim_spec(rows, realm, device, requested, enforce, now, until).1 == ClaimOutcome::Granted(ip),
    ensures
        exists|i: int|
            0 <= i < claim_spec(rows, realm, device, requested, enforce, now, until).0.len() && {
                let r = #[trigger] claim_spec(rows, realm, device, requested, enforce, now, until).0[i];
                &&& r.ip == ip
                &&& holds(r, realm, device)
                &&& (r.expires == Some(until) || r.expires is None)
            },
{
    lemma_cleared_facts(rows, realm, device);
    let c = cleared(rows, realm, device);
    let res = claim_spec(rows, realm, device, requested, enforce, now, until).0;
    if exists|i: int| 0 <= i < c.len() && holds(#[trigger] c[i], realm, device) {
        let i = choose|i: int| 0 <= i < c.len() && holds(#[trigger] c[i], realm, device);
        assert(res[i].ip == ip);
    } else if requested is Some && exists|i: int|
        0 <= i < c.len() && (#[trigger] c[i]).ip == requested->0 && offerable(c[i], realm, now) {
        let i = choose|i: int|
            0 <= i < c.len() && (#[trigger] c[i]).ip == requested->0 && offerable(c[i], realm, now);
        assert(res[i].ip == ip);
    } else {
        let i = choose|i: int| is_best_candidate(c, i, realm, now);
        assert(res[i].ip == ip);
    }
}

/// Discover is sticky: a device that was just granted an address gets the
/// same address back on the next discover, whenever it comes.
pub proof fn law_discover_is_sticky(
    rows: Seq<LeaseRow>,
    realm: u128,
    device: u128,
    requested: Option<u32>,
    now: u64,
    until: u64,
    later: u64,
    until2: u64,
    ip: u32,
)
    requires
        rows_wf(rows),
        claim_spec(rows, realm, device, requested, false, now, until).1 == ClaimOutcome::Granted(ip),
    ensures
        claim_spec(
            claim_spec(rows, realm, device, requested, false, now, until).0,
            realm,
            device,
            None,
            false,
            later,
            until2,
        ).1 == ClaimOutcome::Granted(ip),
{
    let r1 = claim_spec(rows, realm, device, requested, false, now, until).0;
    law_claim_keeps_pool_consistent(rows, realm, device, requested, false, now, until);
    law_granted_address_is_bound(rows, realm, device, requested, false, now, until, ip);
    let i = choose|i: int|
        0 <= i < r1.len() && {
            let r = #[trigger] r1[i];
            &&& r.ip == ip
            &&& holds(r, realm, device)
            &&& (r.expires == Some(until) || r.expires is None)
        };
    lemma_cleared_facts(r1, realm, device);
    let c2 = cleared(r1, realm, device);
    assert(holds(c2[i], realm, device));
    let j = choose|j: int| 0 <= j < c2.len() && holds(#[trigger] c2[j], realm, device);
    lemma_cleared_wf_law(r1, realm, device);
    if i != j {
        assert(c2[i].device != c2[j].device);
    }
}

/// Exclusivity: while a device's lease runs, no other device is granted its
/// address.
pub proof fn law_leased_address_is_exclusive(
    rows: Seq<LeaseRow>,
    realm: u128,
    device: u128,
    requested: Option<u32>,
    enforce: bool,
    now: u64,
    until: u64,
    ip: u32,
    realm2: u128,
    other: u128,
    requested2: Option<u32>,
    enforce2: bool,
    now2: u64,
    until2: u64,
)
    requires
        rows_wf(rows),
        claim_spec(rows, realm, device, requested, enforce, now, until).1 == ClaimOutcome::Granted(ip),
        other != device,
        now2 < until,
    ensures
        claim_spec(
            claim_spec(rows, realm, device, requested, enforce, now, until).0,
            realm2,
            other,
            requested2,
            enforce2,
            now2,
            until2,
        ).1 != ClaimOutcome::Granted(ip),
{
    let r1 = claim_spec(rows, realm, device, requested, enforce, now, until).0;
    law_claim_keeps_pool_consistent(rows, realm, device, requested, enforce, now, until);
    law_granted_address_is_bound(rows, realm, device, requested, enforce, now, until, ip);
    let i = choose|i: int|
        0 <= i < r1.len() && {
            let r = #[trigger] r1[i];
            &&& r.ip == ip
            &&& holds(r, realm, device)
            &&& (r.expires == Some(until) || r.expires is None)
        };
    lemma_cleared_facts(r1, realm2, other);
    lemma_cleared_wf_law(r1, realm2, other);
    let c = cleared(r1, realm2, other);
    assert(c[i] == r1[i]);
    assert(!claimable(c[i], now2));
    if exists|k: int| 0 <= k < c.len() && holds(#[trigger] c[k], realm2, other) {
        let k = choose|k: int| 0 <= k < c.len() && holds(#[trigger] c[k], realm2, other);
        if c[k].ip == ip {
            lemma_same_ip(c, i, k);
        }
    } else if requested2 is Some && exists|k: int|
        0 <= k < c.len() && (#[trigger] c[k]).ip == requested2->0 && offerable(c[k], realm2, now2) {
        let k = choose|k: int|
            0 <= k < c.len() && (#[trigger] c[k]).ip == requested2->0 && offerable(c[k], realm2, now2);
        if c[k].ip == ip {
            lemma_same_ip(c, i, k);
        }
    } else if !enforce2 && exists|k: int| is_best_candidate(c, k, realm2, now2) {
        let k = choose|k: int| is_best_candidate(c, k, realm2, now2);
        if c[k].ip == ip {
            lemma_same_ip(c, i, k);
        }
    }
}

/// A static binding (a device without an expiry) is never handed to another
/// device: any other device's claim leaves the row as it is and is not
/// granted its address.
pub proof fn law_static_binding_kept(
    rows: Seq<LeaseRow>,
    i: int,
    realm: u128,
    other: u128,
    requested: Option<u32>,
    enforce: bool,
    now: u64,
    until: u64,
)
    requires
        rows_wf(rows),
        0 <= i < rows.len(),
        rows[i].device is Some,
        rows[i].device != Some(other),
        rows[i].expires is None,
    ensures
        claim_spec(rows, realm, other, requested, enforce, now, until).0[i] == rows[i],
        claim_spec(rows, realm, other, requested, enforce, now, until).1 != ClaimOutcome::Granted(rows[i].ip),
{
    lemma_cleared_facts(rows, realm, other);
    lemma_cleared_wf_law(rows, realm, other);
    let c = cleared(rows, realm, other);
    assert(c[i] == rows[i]);
    assert(!claimable(c[i], now));
    if exists|k: int| 0 <= k < c.len() && holds(#[trigger] c[k], realm, other) {
        let k = choose|k: int| 0 <= k < c.len() && holds(#[trigger] c[k], realm, other);
        assert(k != i);
        if c[k].ip == c[i].ip {
            lemma_same_ip(c, i, k);
        }
    } else if requested is Some && exists|k: int|
        0 <= k < c.len() && (#[trigger] c[k]).ip == requested->0 && offerable(c[k], realm, now) {
        let k = choose|k: int|
            0 <= k < c.len() && (#[trigger] c[k]).ip == requested->0 && offerable(c[k], realm, now);
        assert(k != i);
        if c[k].ip == c[i].ip {
            lemma_same_ip(c, i, k);
        }
    } else if !enforce && exists|k: int| is_best_candidate(c, k, realm, now) {
        let k = choose|k: int| is_best_candidate(c, k, realm, now);
        assert(k != i);
        if c[k].ip == c[i].ip {
            lemma_same_ip(c, i, k);
        }
    }
}

/// A claim that asks for nothing in particular is refused only when the realm
/// has no free or reclaimable address left.
pub proof fn law_unavailable_only_when_exhausted(
    rows: Seq<LeaseRow>,
    realm: u128,
    device: u128,
    now: u64,
    until: u64,
)
    requires
        claim_spec(rows, realm, device, None, false, now, until).1 == ClaimOutcome::Unavailable,
    ensures
        forall|i: int|
            0 <= i < rows.len() ==> !offerable(#[trigger] cleared(rows, realm, device)[i], realm, now),
{
    lemma_cleared_facts(rows, realm, device);
    let c = cleared(rows, realm, device);
    if exists|k: int| 0 <= k < c.len() && offerable(#[trigger] c[k], realm, now) {
        lemma_best_exists(c, realm, now);
    }
}

/// A device that moves to another realm loses its binding in the old realm
/// as soon as it claims in the new one.
pub proof fn law_realm_move_frees_old_binding(
    rows: Seq<LeaseRow>,
    realm: u128,
    device: u128,
    requested: Option<u32>,
    enforce: bool,
    now: u64,
    until: u64,
    i: int,
)
    requires
        rows_wf(rows),
        0 <= i < rows.len(),
        rows[i].device == Some(device),
        rows[i].realm != realm,
    ensures
        claim_spec(rows, realm, device, requested, enforce, now, until).0[i] == unbound(rows[i]),
{
    lemma_cleared_facts(rows, realm, device);
    let c = cleared(rows, realm, device);
    assert(c[i] == unbound(rows[i]));
    if exists|k: int| 0 <= k < c.len() && holds(#[trigger] c[k], realm, device) {
        let k = choose|k: int| 0 <= k < c.len() && holds(#[trigger] c[k], realm, device);
        assert(k != i);
    } else if requested is Some && exists|k: int|
        0 <= k < c.len() && (#[trigger] c[k]).ip == requested->0 && offerable(c[k], realm, now) {
        let k = choose|k: int|
            0 <= k < c.len() && (#[trigger] c[k]).ip == requested->0 && offerable(c[k], realm, now);
        assert(k != i);
    } else if !enforce && exists|k: int| is_best_candidate(c, k, realm, now) {
        let k = choose|k: int| is_best_candidate(c, k, realm, now);
        assert(k != i);
    }
}

/// A REQUEST for another address than the one the device holds in the realm
/// is a `Mismatch` naming the held address; a REQUEST for the held address is
/// granted.
pub proof fn law_request_enforces_binding(
    rows: Seq<LeaseRow>,
    realm: u128,
    device: u128,
    i: int,
    requested: u32,
    now: u64,
    until: u64,
)
    requires
        rows_wf(rows),
        0 <= i < rows.len(),
        holds(rows[i], realm, device),
    ensures
        requested != rows[i].ip ==> claim_spec(rows, realm, device, Some(requested), true, now, until).1
            == ClaimOutcome::Mismatch(rows[i].ip),
        requested == rows[i].ip ==> claim_spec(rows, realm, device, Some(requested), true, now, until).1
            == ClaimOutcome::Granted(rows[i].ip),
{
    lemma_cleared_facts(rows, realm, device);
    lemma_cleared_wf_law(rows, realm, device);
    let c = cleared(rows, realm, device);
    assert(holds(c[i], realm, device));
    let j = choose|j: int| 0 <= j < c.len() && holds(#[trigger] c[j], realm, device);
    if i != j {
        assert(c[i].device != c[j].device);
    }
}

/// RELEASE keeps the binding: the address stays attributed to the device, and
/// its next discover in the realm hands the same address back.
pub proof fn law_release_keeps_binding(
    rows: Seq<LeaseRow>,
    realm: u128,
    device: u128,
    i: int,
    now: u64,
    later: u64,
    until: u64,
)
    requires
        rows_wf(rows),
        0 <= i < rows.len(),
        holds(rows[i], realm, device),
    ensures
        end_lease_spec(rows, device, now).1 == Some(rows[i].ip),
        holds(end_lease_spec(rows, device, now).0[i], realm, device),
        claim_spec(end_lease_spec(rows, device, now).0, realm, device, None, false, later, until).1
            == ClaimOutcome::Granted(rows[i].ip),
{
    let j = choose|j: int| 0 <= j < rows.len() && (#[trigger] rows[j]).device == Some(device);
    if i != j {
        assert(rows[i].device != rows[j].device);
    }
    let r1 = end_lease_spec(rows, device, now).0;
    lemma_update_keeps_wf(rows, i, expiring(rows[i], now));
    law_request_enforces_binding(r1, realm, device, i, rows[i].ip, later, until);
    lemma_cleared_facts(r1, realm, device);
    lemma_cleared_wf_law(r1, realm, device);
    let c = cleared(r1, realm, device);
    assert(holds(c[i], realm, device));
    let k = choose|k: int| 0 <= k < c.len() && holds(#[trigger] c[k], realm, device);
    if i != k {
        assert(c[i].device != c[k].device);
    }
}

/// Only the holder of an address can quarantine it; anyone else's DECLINE
/// changes nothing. A quarantined address is not handed out to any device
/// before its probation ends.
pub proof fn law_quarantine_guard(
    rows: Seq<LeaseRow>,
    device: u128,
    ip: u32,
    until: u64,
    realm: u128,
    other: u128,
    requested: Option<u32>,
    enforce: bool,
    now: u64,
    until2: u64,
)
    requires
        rows_wf(rows),
    ensures
        !quarantine_spec(rows, device, ip, until).1 ==> quarantine_spec(rows, device, ip, until).0
            == rows,
        quarantine_spec(rows, device, ip, until).1 ==> exists|i: int|
            0 <= i < rows.len() && (#[trigger] rows[i]).ip == ip && rows[i].device == Some(device),
        quarantine_spec(rows, device, ip, until).1 && now < until ==> claim_spec(
            quarantine_spec(rows, device, ip, until).0,
            realm,
            other,
            requested,
            enforce,
            now,
            until2,
        ).1 != ClaimOutcome::Granted(ip),
{
    if quarantine_spec(rows, device, ip, until).1 && now < until {
        let i = choose|i: int|
            0 <= i < rows.len() && (#[trigger] rows[i]).ip == ip && rows[i].device == Some(device);
        let q = LeaseRow { device: None, expires: Some(until), ..rows[i] };
        lemma_update_keeps_wf(rows, i, q);
        let r1 = rows.update(i, q);
        lemma_cleared_facts(r1, realm, other);
        lemma_cleared_wf_law(r1, realm, other);
        let c = cleared(r1, realm, other);
        assert(c[i] == q);
        if exists|k: int| 0 <= k < c.len() && holds(#[trigger] c[k], realm, other) {
            let k = choose|k: int| 0 <= k < c.len() && holds(#[trigger] c[k], realm, other);
            if c[k].ip == ip {
                lemma_same_ip(c, i, k);
            }
        } else if requested is Some && exists|k: int|
            0 <= k < c.len() && (#[trigger] c[k]).ip == requested->0 && offerable(c[k], realm, now) {
            let k = choose|k: int|
                0 <= k < c.len() && (#[trigger] c[k]).ip == requested->0 && offerable(c[k], realm, now);
            if c[k].ip == ip {
                lemma_same_ip(c, i, k);
            }
        } else if !enforce && exists|k: int| is_best_candidate(c, k, realm, now) {
            let k = choose|k: int| is_best_candidate(c, k, realm, now);
            if c[k].ip == ip {
                lemma_same_ip(c, i, k);
            }
        }
    }
}

/// An enforced claim (a REQUEST) is granted only the address it asked for.
/// A device with no binding in the realm whose requested address cannot be
/// granted is refused, and no address is attributed to it: no fallback
/// allocation happens.
pub proof fn law_enforced_claim_grants_only_requested(
    rows: Seq<LeaseRow>,
    realm: u128,
    device: u128,
    requested: Option<u32>,
    now: u64,
    until: u64,
)
    ensures
        claim_spec(rows, realm, device, requested, true, now, until).1 matches ClaimOutcome::Granted(ip)
            ==> requested == Some(ip),
        (forall|i: int| 0 <= i < rows.len() ==> !holds(#[trigger] rows[i], realm, device)) && (forall|i: int|
            0 <= i < rows.len() ==> !(Some((#[trigger] rows[i]).ip) == requested && offerable(
                rows[i],
                realm,
                now,
            ))) ==> {
            &&& claim_spec(rows, realm, device, requested, true, now, until).1 == ClaimOutcome::Unavailable
            &&& claim_spec(rows, realm, device, requested, true, now, until).0 == cleared(
                rows,
                realm,
                device,
            )
            &&& forall|k: int|
                0 <= k < rows.len() ==> (#[trigger] claim_spec(
                    rows,
                    realm,
                    device,
                    requested,
                    true,
                    now,
                    until,
                ).0[k]).device != Some(device)
        },
{
    lemma_cleared_facts(rows, realm, device);
    let c = cleared(rows, realm, device);
    if (forall|i: int| 0 <= i < rows.len() ==> !holds(#[trigger] rows[i], realm, device)) && (forall|i: int|
        0 <= i < rows.len() ==> !(Some((#[trigger] rows[i]).ip) == requested && offerable(rows[i], realm, now))) {
        assert forall|i: int| 0 <= i < c.len() implies !holds(#[trigger] c[i], realm, device) by {
            assert(!holds(rows[i], realm, device));
        }
        assert forall|i: int| 0 <= i < c.len() implies !(requested is Some && (#[trigger] c[i]).ip
            == requested->0 && offerable(c[i], realm, now)) by {
            if requested is Some && c[i].ip == requested->0 && offerable(c[i], realm, now) {
                assert(c[i] == rows[i]);
            }
        }
        lemma_no_binding_after_clear(rows, realm, device);
    }
}

/// A static binding stays static: claiming it again grants its address and
/// leaves the row as it is, without an expiry.
pub proof fn law_static_binding_stays(
    rows: Seq<LeaseRow>,
    realm: u128,
    device: u128,
    i: int,
    requested: Option<u32>,
    enforce: bool,
    now: u64,
    until: u64,
)
    requires
        rows_wf(rows),
        0 <= i < rows.len(),
        holds(rows[i], realm, device),
        rows[i].expires is None,
        enforce ==> requested == Some(rows[i].ip),
    ensures
        claim_spec(rows, realm, device, requested, enforce, now, until).1 == ClaimOutcome::Granted(
            rows[i].ip,
        ),
        claim_spec(rows, realm, device, requested, enforce, now, until).0[i] == rows[i],
{
    lemma_cleared_facts(rows, realm, device);
    lemma_cleared_wf_law(rows, realm, device);
    let c = cleared(rows, realm, device);
    assert(c[i] == rows[i]);
    let j = choose|j: int| 0 <= j < c.len() && holds(#[trigger] c[j], realm, device);
    if i != j {
        assert(c[i].device != c[j].device);
    }
}

/// A device new to a realm that asks for nothing in particular gets the
/// lowest free address of the realm, while one is left: no reclaimable
/// address of another device is taken then.
pub proof fn law_lowest_free_first(rows: Seq<LeaseRow>, realm: u128, device: u128, now: u64, until: u64)
    requires
        forall|i: int| 0 <= i < rows.len() ==> !holds(#[trigger] rows[i], realm, device),
        exists|i: int| 0 <= i < rows.len() && offerable(#[trigger] rows[i], realm, now) && rows[i].device is None,
    ensures
        exists|i: int|
            0 <= i < rows.len() && offerable(#[trigger] rows[i], realm, now) && rows[i].device is None
                && claim_spec(rows, realm, device, None, false, now, until).1 == ClaimOutcome::Granted(
                rows[i].ip,
            ) && forall|k: int|
                0 <= k < rows.len() && offerable(#[trigger] rows[k], realm, now) && rows[k].device is None
                    ==> rows[i].ip <= rows[k].ip,
{
    lemma_cleared_facts(rows, realm, device);
    let c = cleared(rows, realm, device);
    assert forall|i: int| 0 <= i < c.len() implies !holds(#[trigger] c[i], realm, device) by {
        assert(!holds(rows[i], realm, device));
    }
    let f = choose|i: int| 0 <= i < rows.len() && offerable(#[trigger] rows[i], realm, now) && rows[i].device is None;
    assert(c[f] == rows[f]);
    lemma_best_exists(c, realm, now);
    let b = choose|b: int| is_best_candidate(c, b, realm, now);
    assert(c[b] == rows[b]);
    assert(preferred(c[b], c[f]));
    assert forall|k: int|
        0 <= k < rows.len() && offerable(#[trigger] rows[k], realm, now) && rows[k].device is None implies rows[b].ip
        <= rows[k].ip by {
        assert(c[k] == rows[k]);
        assert(preferred(c[b], c[k]));
    }
    assert(offerable(rows[b], realm, now) && rows[b].device is None);
}

/// A claim hands out only what may be handed out: before the claim, the
/// granted row was in the claimed realm and free (no device, no expiry or
/// one past), reclaimable (a device, an expiry past) or already the
/// device's; so no running lease of another device, no static row of
/// another device and no quarantined row is ever granted. Afterwards it is
/// the only address bound to the device.
pub proof fn law_claim_takes_only_claimable(
    rows: Seq<LeaseRow>,
    realm: u128,
    device: u128,
    requested: Option<u32>,
    enforce: bool,
    now: u64,
    until: u64,
    ip: u32,
)
    requires
        rows_wf(rows),
        claim_spec(rows, realm, device, requested, enforce, now, until).1 == ClaimOutcome::Granted(ip),
    ensures
        exists|i: int|
            0 <= i < rows.len() && (#[trigger] rows[i]).ip == ip && rows[i].realm == realm && {
                ||| (rows[i].device is None && (rows[i].expires is None || rows[i].expires->0 <= now))
                ||| (rows[i].device is Some && rows[i].expires is Some && rows[i].expires->0 <= now)
                ||| rows[i].device == Some(device)
            },
        forall|i: int|
            0 <= i < rows.len() && (#[trigger] rows[i]).ip == ip && rows[i].device is Some && rows[i].device
                != Some(device) ==> rows[i].expires is Some && rows[i].expires->0 <= now,
        forall|i: int|
            0 <= i < rows.len() && (#[trigger] rows[i]).ip == ip && rows[i].device is None
                ==> rows[i].expires is None || rows[i].expires->0 <= now,
        forall|k: int|
            0 <= k < rows.len() && (#[trigger] claim_spec(
                rows,
                realm,
                device,
                requested,
                enforce,
                now,
                until,
            ).0[k]).device == Some(device) ==> claim_spec(
                rows,
                realm,
                device,
                requested,
                enforce,
                now,
                until,
            ).0[k].ip == ip && claim_spec(rows, realm, device, requested, enforce, now, until).0[k].realm
                == realm,
{
    lemma_cleared_facts(rows, realm, device);
    lemma_cleared_wf_law(rows, realm, device);
    law_claim_keeps_pool_consistent(rows, realm, device, requested, enforce, now, until);
    law_granted_address_is_bound(rows, realm, device, requested, enforce, now, until, ip);
    let res = claim_spec(rows, realm, device, requested, enforce, now, until).0;
    let c = cleared(rows, realm, device);
    let g = choose|i: int|
        0 <= i < res.len() && {
            let r = #[trigger] res[i];
            &&& r.ip == ip
            &&& holds(r, realm, device)
            &&& (r.expires == Some(until) || r.expires is None)
        };
    assert(res.len() == rows.len());
    assert forall|k: int| 0 <= k < rows.len() && (#[trigger] res[k]).device == Some(device) implies res[k].ip
        == ip && res[k].realm == realm by {
        if k != g {
            assert(res[g].device != res[k].device);
        }
    }
    if exists|i: int| 0 <= i < c.len() && holds(#[trigger] c[i], realm, device) {
        let i = choose|i: int| 0 <= i < c.len() && holds(#[trigger] c[i], realm, device);
        assert(c[i] == rows[i]);
        assert(rows[i].ip == ip);
    } else if requested is Some && exists|i: int|
        0 <= i < c.len() && (#[trigger] c[i]).ip == requested->0 && offerable(c[i], realm, now) {
        let i = choose|i: int|
            0 <= i < c.len() && (#[trigger] c[i]).ip == requested->0 && offerable(c[i], realm, now);
        assert(c[i] == rows[i]);
        assert(rows[i].ip == ip);
    } else {
        let i = choose|i: int| is_best_candidate(c, i, realm, now);
        assert(c[i] == rows[i]);
        assert(rows[i].ip == ip);
    }
}

/// A claim, enforced or not, by a device that holds no address in the realm
/// is granted the address it asks for whenever that address is free or
/// reclaimable in the realm, and that row becomes the device's until the new
/// expiry.
pub proof fn law_requested_address_granted(
    rows: Seq<LeaseRow>,
    realm: u128,
    device: u128,
    ip: u32,
    enforce: bool,
    now: u64,
    until: u64,
)
    requires
        forall|i: int| 0 <= i < rows.len() ==> !holds(#[trigger] rows[i], realm, device),
        exists|i: int| 0 <= i < rows.len() && (#[trigger] rows[i]).ip == ip && offerable(rows[i], realm, now),
    ensures
        claim_spec(rows, realm, device, Some(ip), enforce, now, until).1 == ClaimOutcome::Granted(ip),
        exists|j: int|
            0 <= j < rows.len() && (#[trigger] rows[j]).ip == ip && offerable(rows[j], realm, now) && claim_spec(
                rows,
                realm,
                device,
                Some(ip),
                enforce,
                now,
                until,
            ).0[j] == (LeaseRow { device: Some(device), expires: Some(until), ..rows[j] }),
{
    lemma_cleared_facts(rows, realm, device);
    let c = cleared(rows, realm, device);
    assert forall|i: int| 0 <= i < c.len() implies !holds(#[trigger] c[i], realm, device) by {
        assert(!holds(rows[i], realm, device));
    }
    let w = choose|i: int| 0 <= i < rows.len() && (#[trigger] rows[i]).ip == ip && offerable(rows[i], realm, now);
    assert(c[w] == rows[w]);
    let j = choose|j: int| 0 <= j < c.len() && (#[trigger] c[j]).ip == ip && offerable(c[j], realm, now);
    assert(c[j] == rows[j]);
}

} // verus!
