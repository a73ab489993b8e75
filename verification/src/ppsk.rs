//! Private pre-shared keys: turning the credentials of password networks
//! into the key list of the matching wireless network of the network
//! controller, and paging through the controller's listings.
use crate::text::fields::{decimal_chars, decimal_text};
use crate::text::same_text;
use vstd::prelude::*;
use vstd::string::StringExecFns;
use vstd::utf8::encode_utf8;

verus! {

/// One page of a controller listing.
#[derive(Debug)]
pub struct UniFiListResponse<T> {
    pub data: Vec<T>,
    pub offset: Option<i64>,
    pub limit: Option<i64>,
    pub count: Option<i64>,
    pub total_count: Option<i64>,
}

/// The security type of a wireless network, as listed.
#[derive(Debug)]
pub struct WlanSecurityConfigSummary {
    pub config_type: String,
}

/// Whether a key puts its clients on the native network or a given one.
#[derive(Clone, Copy, Debug, PartialEq, Eq, Structural)]
pub enum WlanPresharedKeyNetworkType {
    Native,
    Specific,
}

/// The network a key's clients are put on.
#[derive(Debug)]
pub struct WlanPresharedKeyNetwork {
    pub network_type: WlanPresharedKeyNetworkType,
    pub network_id: Option<String>,
}

/// One private pre-shared key.
#[derive(Debug)]
pub struct WlanPresharedKey {
    pub network: WlanPresharedKeyNetwork,
    pub passphrase: String,
}

/// The page size of controller listings.
pub const PAGE_LIMIT: usize = 100;

/// The number of items a listing has: as reported, else what was collected.
pub open spec fn listing_total(collected: usize, total_count: Option<i64>) -> usize {
    match total_count {
        Some(t) => t as usize,
        None => collected,
    }
}

/// After a page of `fetched` items brought the collection to `collected`:
/// stop once everything reported is there or the page was short; else ask
/// for the next page.
pub fn next_page_offset(collected: usize, fetched: usize, total_count: Option<i64>, offset: usize) -> (r: Option<usize>)
    requires
        offset + PAGE_LIMIT <= usize::MAX,
    ensures
        r is None <==> (collected >= listing_total(collected, total_count) || fetched < PAGE_LIMIT),
        r matches Some(o) ==> o == offset + PAGE_LIMIT,
{
    let total: usize = match total_count {
        Some(t) => t as usize,
        None => collected,
    };
    if collected >= total || fetched < PAGE_LIMIT {
        None
    } else {
        Some(offset + PAGE_LIMIT)
    }
}

/// Paging stops after a short page, once everything reported is collected,
/// and, without a reported total, after the first page; it goes on only
/// while items are still missing.
pub proof fn law_paging_stops(collected: usize, fetched: usize, total_count: Option<i64>)
    ensures
        fetched < PAGE_LIMIT ==> (collected >= listing_total(collected, total_count) || fetched < PAGE_LIMIT),
        total_count is None ==> collected >= listing_total(collected, total_count),
        !(collected >= listing_total(collected, total_count) || fetched < PAGE_LIMIT) ==> collected
            < listing_total(collected, total_count) && fetched >= PAGE_LIMIT,
{
}

/// A network's id on the controller, by VLAN.
#[derive(Debug)]
pub struct ControllerNetwork {
    pub vlan_id: i64,
    pub id: String,
}

/// A credential of a password network: its password, the VLAN of its
/// owner's realm, and its id.
#[derive(Debug)]
pub struct PpskCredential {
    pub password: String,
    pub vlan: i32,
    pub cred_id: u128,
}

/// The keys of one wireless network, and the credentials left out for a
/// password the controller would refuse.
#[derive(Debug)]
pub struct PpskList {
    pub keys: Vec<WlanPresharedKey>,
    pub bad_passwords: Vec<u128>,
}

/// The length in bytes of a text, as `str::len` gives it.
pub open spec fn byte_len(p: Seq<char>) -> usize {
    encode_utf8(p).len() as usize
}

/// A passphrase the controller takes: 8 to 63 bytes.
pub open spec fn passphrase_ok(p: Seq<char>) -> bool {
    8 <= byte_len(p) <= 63
}

/// The controller network of a VLAN: the last one listed with that VLAN, as
/// a map built from the listing keeps it.
pub open spec fn network_for_vlan(nets: Seq<(i64, Seq<char>)>, vlan: i64) -> Option<Seq<char>>
    decreases nets.len(),
{
    if nets.len() == 0 {
        None
    } else if nets.last().0 == vlan {
        Some(nets.last().1)
    } else {
        network_for_vlan(nets.drop_last(), vlan)
    }
}

pub open spec fn network_views(nets: Seq<ControllerNetwork>) -> Seq<(i64, Seq<char>)> {
    nets.map_values(|n: ControllerNetwork| (n.vlan_id, n.id@))
}

/// The key list built from the first `n` credentials: credentials with a bad
/// password are set aside; a credential whose VLAN the controller lacks
/// stops the whole list (`None`, with that VLAN).
pub open spec fn ppsk_keys(creds: Seq<(Seq<char>, i32)>, nets: Seq<(i64, Seq<char>)>) -> Result<
    Seq<(Seq<char>, Seq<char>)>,
    i32,
>
    decreases creds.len(),
{
    if creds.len() == 0 {
        Ok(Seq::empty())
    } else {
        match ppsk_keys(creds.drop_last(), nets) {
            Err(v) => Err(v),
            Ok(keys) => {
                let (p, vlan) = creds.last();
                if !passphrase_ok(p) {
                    Ok(keys)
                } else {
                    match network_for_vlan(nets, vlan as i64) {
                        Some(id) => Ok(keys.push((id, p))),
                        None => Err(vlan),
                    }
                }
            },
        }
    }
}

/// The credentials whose passwords the controller takes, in order.
pub open spec fn good_creds(creds: Seq<(Seq<char>, i32)>) -> Seq<(Seq<char>, i32)>
    decreases creds.len(),
{
    if creds.len() == 0 {
        creds
    } else if passphrase_ok(creds.last().0) {
        good_creds(creds.drop_last()).push(creds.last())
    } else {
        good_creds(creds.drop_last())
    }
}

/// A credential with a bad password is only ever set aside: the key list,
/// or the VLAN that stops it, is that of the credentials without it. A list
/// is stopped only by a credential with a good password whose VLAN the
/// controller lacks.
pub proof fn law_bad_passwords_are_only_set_aside(creds: Seq<(Seq<char>, i32)>, nets: Seq<(i64, Seq<char>)>)
    ensures
        ppsk_keys(creds, nets) == ppsk_keys(good_creds(creds), nets),
        ppsk_keys(creds, nets) matches Err(v) ==> exists|i: int|
            0 <= i < creds.len() && passphrase_ok((#[trigger] creds[i]).0) && creds[i].1 == v
                && network_for_vlan(nets, v as i64) is None,
    decreases creds.len(),
{
    if creds.len() > 0 {
        let rest = creds.drop_last();
        law_bad_passwords_are_only_set_aside(rest, nets);
        let x = creds.last();
        if passphrase_ok(x.0) {
            let g = good_creds(rest).push(x);
            assert(g.drop_last() =~= good_creds(rest));
            assert(g.last() == x);
        }
        if let Err(v) = ppsk_keys(creds, nets) {
            if let Err(w) = ppsk_keys(rest, nets) {
                let i = choose|i: int|
                    0 <= i < rest.len() && passphrase_ok((#[trigger] rest[i]).0) && rest[i].1 == w
                        && network_for_vlan(nets, w as i64) is None;
                assert(creds[i] == rest[i]);
            } else {
                assert(creds[creds.len() - 1] == x);
            }
        }
    }
}

/// The ids of the credentials whose passwords the controller would refuse,
/// in order.
pub open spec fn bad_password_ids(creds: Seq<PpskCredential>) -> Seq<u128>
    decreases creds.len(),
{
    if creds.len() == 0 {
        Seq::empty()
    } else if passphrase_ok(creds.last().password@) {
        bad_password_ids(creds.drop_last())
    } else {
        bad_password_ids(creds.drop_last()).push(creds.last().cred_id)
    }
}

pub open spec fn cred_views(creds: Seq<PpskCredential>) -> Seq<(Seq<char>, i32)> {
    creds.map_values(|c: PpskCredential| (c.password@, c.vlan))
}

/// The network id, passphrase pairs of a key list.
pub open spec fn key_views(keys: Seq<WlanPresharedKey>) -> Seq<(Seq<char>, Seq<char>)> {
    keys.map_values(
        |k: WlanPresharedKey|
            (
                match k.network.network_id {
                    Some(id) => id@,
                    None => Seq::empty(),
                },
                k.passphrase@,
            ),
    )
}

fn find_network(nets: &[ControllerNetwork], vlan: i64) -> (r: Option<String>)
    ensures
        match r {
            Some(id) => network_for_vlan(network_views(nets@), vlan) == Some(id@),
            None => network_for_vlan(network_views(nets@), vlan) is None,
        },
{
    let mut i: usize = nets.len();
    assert(nets@.take(nets@.len() as int) =~= nets@);
    while i > 0
        invariant
            0 <= i <= nets@.len(),
            network_for_vlan(network_views(nets@), vlan) == network_for_vlan(network_views(nets@.take(i as int)), vlan),
        decreases i,
    {
        proof {
            assert(network_views(nets@.take(i as int)).drop_last() =~= network_views(nets@.take(i - 1)));
        }
        if nets[i - 1].vlan_id == vlan {
            return Some(nets[i - 1].id.clone());
        }
        i = i - 1;
    }
    proof {
        assert(network_views(nets@.take(0)) =~= Seq::<(i64, Seq<char>)>::empty());
    }
    None
}

proof fn lemma_ppsk_err_stays(creds: Seq<(Seq<char>, i32)>, nets: Seq<(i64, Seq<char>)>, j: int, k: int, v: i32)
    requires
        0 <= j <= k <= creds.len(),
        ppsk_keys(creds.take(j), nets) == Err::<Seq<(Seq<char>, Seq<char>)>, i32>(v),
    ensures
        ppsk_keys(creds.take(k), nets) == Err::<Seq<(Seq<char>, Seq<char>)>, i32>(v),
    decreases k - j,
{
    if j < k {
        lemma_ppsk_err_stays(creds, nets, j, k - 1, v);
        assert(creds.take(k).drop_last() =~= creds.take(k - 1));
    }
}

/// Builds the key list of a wireless network from its credentials (see
/// `ppsk_keys`); every key puts its clients on the network of its VLAN.
pub fn build_ppsk(creds: &[PpskCredential], nets: &[ControllerNetwork]) -> (r: Result<PpskList, i32>)
    ensures
        match r {
            Ok(list) => ppsk_keys(cred_views(creds@), network_views(nets@)) == Ok::<
                Seq<(Seq<char>, Seq<char>)>,
                i32,
            >(key_views(list.keys@)) && list.bad_passwords@ == bad_password_ids(creds@) && forall|i: int|
                0 <= i < list.keys@.len() ==> (#[trigger] list.keys@[i]).network.network_type
                    == WlanPresharedKeyNetworkType::Specific && list.keys@[i].network.network_id is Some,
            Err(v) => ppsk_keys(cred_views(creds@), network_views(nets@)) == Err::<
                Seq<(Seq<char>, Seq<char>)>,
                i32,
            >(v),
        },
{
    let mut keys: Vec<WlanPresharedKey> = Vec::new();
    let mut bad: Vec<u128> = Vec::new();
    let mut i: usize = 0;
    assert(cred_views(creds@.take(0)) =~= Seq::<(Seq<char>, i32)>::empty());
    assert(key_views(keys@) =~= Seq::<(Seq<char>, Seq<char>)>::empty());
    while i < creds.len()
        invariant
            0 <= i <= creds@.len(),
            ppsk_keys(cred_views(creds@.take(i as int)), network_views(nets@)) == Ok::<
                Seq<(Seq<char>, Seq<char>)>,
                i32,
            >(key_views(keys@)),
            bad@ == bad_password_ids(creds@.take(i as int)),
            forall|k: int|
                0 <= k < keys@.len() ==> (#[trigger] keys@[k]).network.network_type
                    == WlanPresharedKeyNetworkType::Specific && keys@[k].network.network_id is Some,
        decreases creds@.len() - i,
    {
        let c = &creds[i];
        proof {
            assert(cred_views(creds@.take(i + 1)).drop_last() =~= cred_views(creds@.take(i as int)));
            assert(cred_views(creds@.take(i + 1)).last() == (c.password@, c.vlan));
            assert(creds@.take(i + 1).drop_last() =~= creds@.take(i as int));
            assert(creds@.take(i + 1).last() == *c);
        }
        let len = c.password.as_str().len();
        assert(len == byte_len(c.password@));
        if len < 8 || len > 63 {
            bad.push(c.cred_id);
        } else {
            match find_network(nets, c.vlan as i64) {
                None => {
                    proof {
                        assert(cred_views(creds@).take(i + 1) =~= cred_views(creds@.take(i + 1)));
                        assert(cred_views(creds@).take(creds@.len() as int) =~= cred_views(creds@));
                        assert(ppsk_keys(cred_views(creds@.take(i + 1)), network_views(nets@)) == Err::<
                            Seq<(Seq<char>, Seq<char>)>,
                            i32,
                        >(c.vlan));
                        lemma_ppsk_err_stays(cred_views(creds@), network_views(nets@), i + 1, creds@.len() as int, c.vlan);
                    }
                    return Err(c.vlan);
                },
                Some(id) => {
                    let ghost idv = id@;
                    let ghost before = keys@;
                    keys.push(
                        WlanPresharedKey {
                            network: WlanPresharedKeyNetwork {
                                network_type: WlanPresharedKeyNetworkType::Specific,
                                network_id: Some(id),
                            },
                            passphrase: c.password.clone(),
                        },
                    );
                    assert(key_views(keys@) =~= key_views(before).push((idv, c.password@)));
                },
            }
        }
        i = i + 1;
    }
    proof {
        assert(creds@.take(creds@.len() as int) =~= creds@);
    }
    Ok(PpskList { keys, bad_passwords: bad })
}

/// The controller's wireless networks are matched to password networks by
/// name; with several of one name, the last listed counts.
pub open spec fn wlan_for_label(wlans: Seq<(Seq<char>, Seq<char>)>, label: Seq<char>) -> Option<Seq<char>>
    decreases wlans.len(),
{
    if wlans.len() == 0 {
        None
    } else if wlans.last().0 == label {
        Some(wlans.last().1)
    } else {
        wlan_for_label(wlans.drop_last(), label)
    }
}

/// A wireless network of the controller: its name and id.
#[derive(Debug)]
pub struct WlanSummaryRef {
    pub name: String,
    pub id: String,
}

pub open spec fn wlan_views(w: Seq<WlanSummaryRef>) -> Seq<(Seq<char>, Seq<char>)> {
    w.map_values(|r: WlanSummaryRef| (r.name@, r.id@))
}

/// The wireless network whose name is a network's label.
pub fn match_wlan(wlans: &[WlanSummaryRef], label: &str) -> (r: Option<String>)
    ensures
        match r {
            Some(id) => wlan_for_label(wlan_views(wlans@), label@) == Some(id@),
            None => wlan_for_label(wlan_views(wlans@), label@) is None,
        },
{
    let mut i: usize = wlans.len();
    assert(wlans@.take(wlans@.len() as int) =~= wlans@);
    while i > 0
        invariant
            0 <= i <= wlans@.len(),
            wlan_for_label(wlan_views(wlans@), label@) == wlan_for_label(wlan_views(wlans@.take(i as int)), label@),
        decreases i,
    {
        proof {
            assert(wlan_views(wlans@.take(i as int)).drop_last() =~= wlan_views(wlans@.take(i - 1)));
        }
        if same_text(wlans[i - 1].name.as_str(), label) {
            return Some(wlans[i - 1].id.clone());
        }
        i = i - 1;
    }
    proof {
        assert(wlan_views(wlans@.take(0)) =~= Seq::<(Seq<char>, Seq<char>)>::empty());
    }
    None
}

/// The controller refuses an empty key list, so the list is only sent when
/// it holds a key.
pub fn should_send_keys(list: &PpskList) -> (b: bool)
    ensures
        b == (list.keys@.len() > 0),
{
    list.keys.len() > 0
}

/// The address of a controller API path.
pub fn request_url(hostname: &str, path: &str) -> (u: String)
    ensures
        u@ == "https://"@ + hostname@ + path@,
{
    let mut u = String::from_str("https://");
    u.append(hostname);
    u.append(path);
    u
}

/// One page of a listing: `offset` items skipped, at most a page long.
pub fn listing_path(base: &str, offset: usize) -> (p: String)
    ensures
        p@ == base@ + "?offset="@ + decimal_chars(offset as nat) + "&limit="@ + decimal_chars(PAGE_LIMIT as nat),
{
    let mut p = base.to_string();
    p.append("?offset=");
    let o = decimal_text(offset as u64);
    p.append(o.as_str());
    p.append("&limit=");
    let l = decimal_text(PAGE_LIMIT as u64);
    p.append(l.as_str());
    p
}

/// The path under which a site's resources are listed.
pub open spec fn site_path(site_id: Seq<char>, rest: Seq<char>) -> Seq<char> {
    "/proxy/network/integration/v1/sites/"@ + site_id + rest
}

/// The listing of a site's networks.
pub fn networks_path(site_id: &str) -> (p: String)
    ensures
        p@ == site_path(site_id@, "/networks"@),
{
    let mut p = String::from_str("/proxy/network/integration/v1/sites/");
    p.append(site_id);
    p.append("/networks");
    p
}

/// The listing of a site's wireless networks.
pub fn wlans_path(site_id: &str) -> (p: String)
    ensures
        p@ == site_path(site_id@, "/wifi/broadcasts"@),
{
    let mut p = String::from_str("/proxy/network/integration/v1/sites/");
    p.append(site_id);
    p.append("/wifi/broadcasts");
    p
}

/// One wireless network of a site.
pub fn wlan_path(site_id: &str, id: &str) -> (p: String)
    ensures
        p@ == site_path(site_id@, "/wifi/broadcasts/"@ + id@),
{
    let mut p = String::from_str("/proxy/network/integration/v1/sites/");
    p.append(site_id);
    p.append("/wifi/broadcasts/");
    p.append(id);
    assert(p@ =~= site_path(site_id@, "/wifi/broadcasts/"@ + id@));
    p
}

} // verus!
