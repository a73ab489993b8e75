//! The DHCP server's decisions: which messages it answers, what it answers
//! them with, and the lease timers it hands out.
//!
//! Messages are taken as plain header fields and options; sending, the
//! database and the kernel are the caller's.
use super::circuit::{CircuitIdMode, circuit_vlan, vlan_from_circuit_id};
use super::lease::{claim_spec, end_lease_spec, quarantine_spec, ClaimOutcome, LeaseTable};
use vstd::prelude::*;

verus! {

/// BOOTP opcode of a client message.
pub const BOOT_REQUEST: u8 = 1;

/// BOOTP opcode of a server message.
pub const BOOT_REPLY: u8 = 2;

/// Hardware type of Ethernet.
pub const HTYPE_ETHERNET: u8 = 1;

/// The broadcast bit of the BOOTP flags field.
pub const BROADCAST_FLAG: u16 = 0x8000;

/// DHCP message types (option 53).
#[derive(Clone, Copy, Debug, PartialEq, Eq, Structural)]
pub enum MessageType {
    Discover,
    Offer,
    Request,
    Decline,
    Ack,
    Nak,
    Release,
    Inform,
}

/// The parts of a received DHCP message the server looks at. Addresses are
/// IPv4 addresses as big-endian integers.
#[derive(Clone, Debug)]
pub struct DhcpRequest {
    pub opcode: u8,
    pub htype: u8,
    pub hops: u8,
    pub xid: u32,
    pub flags: u16,
    pub ciaddr: u32,
    pub giaddr: u32,
    pub chaddr: Vec<u8>,
    /// Option 53, when present and known.
    pub msg_type: Option<MessageType>,
    /// Option 54.
    pub server_id: Option<u32>,
    /// Option 50.
    pub requested_ip: Option<u32>,
    /// The Agent Circuit ID of option 82, when present.
    pub circuit_id: Option<Vec<u8>>,
}

/// A duration as seconds and nanoseconds.
#[derive(Clone, Copy, Debug, PartialEq, Eq, Structural)]
pub struct Span {
    pub secs: u64,
    pub nanos: u32,
}

pub open spec fn span_nanos(s: Span) -> int {
    s.secs * 1_000_000_000 + s.nanos
}

/// The network a lease is handed out in.
#[derive(Clone, Copy, Debug, PartialEq, Eq, Structural)]
pub struct NetConfig {
    pub router: u32,
    pub dns: Option<u32>,
    pub subnet_mask: u32,
}

/// The lease part of an answer.
#[derive(Clone, Copy, Debug, PartialEq, Eq, Structural)]
pub struct LeaseGrant {
    pub yiaddr: u32,
    pub net: NetConfig,
    pub lease: Span,
    /// T1.
    pub renew: Span,
    /// T2.
    pub rebind: Span,
}

/// An answer to a client.
#[derive(Clone, Debug)]
pub struct DhcpResponse {
    pub opcode: u8,
    pub htype: u8,
    pub hops: u8,
    pub xid: u32,
    pub flags: u16,
    pub siaddr: u32,
    pub giaddr: u32,
    pub chaddr: Vec<u8>,
    pub msg_type: MessageType,
    /// Option 54: this server.
    pub server_id: u32,
    pub lease: Option<LeaseGrant>,
}

/// The server's settings.
#[derive(Clone, Copy, Debug)]
pub struct VialoDhcp {
    pub siaddr: u32,
    pub lease: Span,
    pub renew: Span,
    pub rebind: Span,
    /// How long a declined address stays out of the pool, in seconds.
    pub probation: u64,
    pub circuit_id_mode: CircuitIdMode,
}

/// `resp` with the lease of `ip` in `net` on the server's timers.
pub open spec fn leased(server: VialoDhcp, resp: DhcpResponse, ip: u32, net: NetConfig) -> DhcpResponse {
    DhcpResponse {
        lease: Some(
            LeaseGrant { yiaddr: ip, net, lease: server.lease, renew: server.renew, rebind: server.rebind },
        ),
        ..resp
    }
}

/// How a DISCOVER ends once the pool answered: the address the device has
/// or may have is offered; with the pool exhausted, silence.
pub open spec fn discover_action(server: VialoDhcp, resp: DhcpResponse, net: NetConfig, outcome: ClaimOutcome) -> Action {
    match outcome {
        ClaimOutcome::Granted(ip) => Action::Continue(leased(server, resp, ip, net)),
        ClaimOutcome::Mismatch(ip) => Action::Continue(leased(server, resp, ip, net)),
        ClaimOutcome::Unavailable => Action::NoResponse,
    }
}

/// How a REQUEST ends once the pool answered: a granted address is
/// acknowledged with `granted`, anything else is a NAK without a lease.
pub open spec fn request_action(resp: DhcpResponse, outcome: ClaimOutcome, granted: DhcpResponse) -> Action {
    match outcome {
        ClaimOutcome::Granted(_) => Action::Continue(granted),
        _ => Action::Respond(DhcpResponse { msg_type: MessageType::Nak, lease: None, ..resp }),
    }
}

/// What the server does with a message.
#[derive(Debug)]
pub enum Step {
    /// Stay silent.
    NoResponse,
    /// Offer an address; `preferred` (option 50) is only a preference.
    Discover { resp: DhcpResponse, preferred: Option<u32> },
    /// Acknowledge `requested`, or refuse it.
    Request { resp: DhcpResponse, requested: u32 },
    /// End the sender's lease, and stay silent.
    Release,
    /// Quarantine the address the sender found in use, and stay silent.
    Decline { ip: u32 },
}

/// How the server ends a DISCOVER or REQUEST.
#[derive(Debug)]
pub enum Action {
    NoResponse,
    /// Send the answer as it is (a NAK).
    Respond(DhcpResponse),
    /// Send the answer with its lease.
    Continue(DhcpResponse),
}

/// A message the server looks at: a client message from an Ethernet client.
pub open spec fn admitted(req: DhcpRequest) -> bool {
    req.opcode == BOOT_REQUEST && req.htype == HTYPE_ETHERNET && req.chaddr@.len() == 6
}

/// The address a REQUEST asks for: option 50 (SELECTING, INIT-REBOOT), else
/// a set `ciaddr` (RENEWING, REBINDING).
pub open spec fn request_address(req: DhcpRequest) -> Option<u32> {
    match req.requested_ip {
        Some(ip) => Some(ip),
        None => if req.ciaddr != 0 {
            Some(req.ciaddr)
        } else {
            None
        },
    }
}

/// A response skeleton: the request's transaction, relay and client, this
/// server's address and identifier, the given type, and the broadcast bit
/// added when asked.
pub open spec fn is_skeleton(
    resp: DhcpResponse,
    cfg: VialoDhcp,
    req: DhcpRequest,
    mt: MessageType,
    broadcast: bool,
) -> bool {
    &&& resp.opcode == BOOT_REPLY
    &&& resp.htype == req.htype
    &&& resp.hops == req.hops
    &&& resp.xid == req.xid
    &&& resp.flags == (if broadcast {
        req.flags | BROADCAST_FLAG
    } else {
        req.flags
    })
    &&& resp.siaddr == cfg.siaddr
    &&& resp.giaddr == req.giaddr
    &&& resp.chaddr@ == req.chaddr@
    &&& resp.msg_type == mt
    &&& resp.server_id == cfg.siaddr
    &&& resp.lease is None
}

/// Half of `secs` seconds, exactly.
pub open spec fn half_nanos(secs: u64) -> int {
    secs * 1_000_000_000 / 2
}

/// Seven eighths of `secs` seconds, exactly.
pub open spec fn seven_eighths_nanos(secs: u64) -> int {
    secs * 7 * 1_000_000_000 / 8
}

proof fn lemma_half(l: int, q: int, r: int)
    by (nonlinear_arith)
    requires
        l >= 0,
        q == l / 2,
        r == l % 2,
    ensures
        q * 1_000_000_000 + r * 500_000_000 == l * 1_000_000_000 / 2,
        r * 500_000_000 < 1_000_000_000,
{
}

proof fn lemma_eighths(l: int, q: int, r: int)
    by (nonlinear_arith)
    requires
        l >= 0,
        q == l / 8,
        r == l % 8,
    ensures
        q * 1_000_000_000 + r * 125_000_000 == l * 1_000_000_000 / 8,
        r * 125_000_000 < 1_000_000_000,
{
}

impl VialoDhcp {
    /// The server's settings for a lease of `lease_secs` seconds: renewal
    /// (T1) at half the lease, rebinding (T2) at seven eighths.
    pub fn new(siaddr: u32, lease_secs: u64, probation: u64, circuit_id_mode: CircuitIdMode) -> (s: Self)
        requires
            lease_secs * 7 <= u64::MAX,
        ensures
            s.siaddr == siaddr,
            s.lease == (Span { secs: lease_secs, nanos: 0 }),
            span_nanos(s.renew) == half_nanos(lease_secs),
            span_nanos(s.rebind) == seven_eighths_nanos(lease_secs),
            s.renew.nanos < 1_000_000_000,
            s.rebind.nanos < 1_000_000_000,
            s.probation == probation,
            s.circuit_id_mode == circuit_id_mode,
    {
        let half_secs: u64 = lease_secs / 2;
        let half_rest: u32 = (lease_secs % 2) as u32;
        let sevens: u64 = lease_secs * 7;
        let eighth_secs: u64 = sevens / 8;
        let eighth_rest: u32 = (sevens % 8) as u32;
        proof {
            lemma_half(lease_secs as int, half_secs as int, half_rest as int);
            lemma_eighths(sevens as int, eighth_secs as int, eighth_rest as int);
        }
        VialoDhcp {
            siaddr,
            lease: Span { secs: lease_secs, nanos: 0 },
            renew: Span { secs: half_secs, nanos: half_rest * 500_000_000 },
            rebind: Span { secs: eighth_secs, nanos: eighth_rest * 125_000_000 },
            probation,
            circuit_id_mode,
        }
    }

    /// The VLAN hint of option 82, read as the configured mode says.
    pub fn vlan_from_opts(&self, circuit_id: &Option<Vec<u8>>) -> (v: Option<i32>)
        ensures
            v == match circuit_id {
                Some(raw) => circuit_vlan(self.circuit_id_mode, raw@),
                None => None,
            },
    {
        match circuit_id {
            Some(raw) => vlan_from_circuit_id(self.circuit_id_mode, raw.as_slice()),
            None => None,
        }
    }

    /// The answer skeleton for `req`.
    pub fn build_response(&self, req: &DhcpRequest, mt: MessageType, broadcast: bool) -> (resp: DhcpResponse)
        ensures
            is_skeleton(resp, *self, *req, mt, broadcast),
    {
        let flags: u16 = if broadcast {
            req.flags | BROADCAST_FLAG
        } else {
            req.flags
        };
        DhcpResponse {
            opcode: BOOT_REPLY,
            htype: req.htype,
            hops: req.hops,
            xid: req.xid,
            flags,
            siaddr: self.siaddr,
            giaddr: req.giaddr,
            chaddr: clone_bytes(&req.chaddr),
            msg_type: mt,
            server_id: self.siaddr,
            lease: None,
        }
    }

    /// Decides what to do with a message: non-client and non-Ethernet
    /// messages are ignored; a DISCOVER is offered an address; a REQUEST is
    /// answered unless it names another server or asks for no address; a
    /// RELEASE ends the lease and a DECLINE with option 50 quarantines the
    /// address, both silently; anything else is ignored.
    pub fn handle(&self, req: &DhcpRequest) -> (s: Step)
        ensures
            !admitted(*req) ==> s is NoResponse,
            admitted(*req) ==> match req.msg_type {
                Some(MessageType::Discover) => s matches Step::Discover { resp, preferred } && is_skeleton(
                    resp,
                    *self,
                    *req,
                    MessageType::Offer,
                    false,
                ) && preferred == req.requested_ip,
                Some(MessageType::Request) => if req.server_id matches Some(sid) && sid != self.siaddr {
                    s is NoResponse
                } else {
                    match request_address(*req) {
                        None => s is NoResponse,
                        Some(ip) => s matches Step::Request { resp, requested } && is_skeleton(
                            resp,
                            *self,
                            *req,
                            MessageType::Ack,
                            req.giaddr == 0,
                        ) && requested == ip,
                    }
                },
                Some(MessageType::Release) => s is Release,
                Some(MessageType::Decline) => match req.requested_ip {
                    Some(ip) => s == (Step::Decline { ip }),
                    None => s is NoResponse,
                },
                _ => s is NoResponse,
            },
    {
        if req.opcode != BOOT_REQUEST || req.htype != HTYPE_ETHERNET || req.chaddr.len() != 6 {
            return Step::NoResponse;
        }
        match req.msg_type {
            Some(MessageType::Discover) => {
                let resp = self.build_response(req, MessageType::Offer, false);
                Step::Discover { resp, preferred: req.requested_ip }
            },
            Some(MessageType::Request) => {
                if let Some(sid) = req.server_id {
                    if sid != self.siaddr {
                        return Step::NoResponse;
                    }
                }
                let requested = match req.requested_ip {
                    Some(ip) => Some(ip),
                    None => if req.ciaddr != 0 {
                        Some(req.ciaddr)
                    } else {
                        None
                    },
                };
                match requested {
                    None => Step::NoResponse,
                    Some(ip) => {
                        let resp = self.build_response(req, MessageType::Ack, req.giaddr == 0);
                        Step::Request { resp, requested: ip }
                    },
                }
            },
            Some(MessageType::Release) => Step::Release,
            Some(MessageType::Decline) => match req.requested_ip {
                Some(ip) => Step::Decline { ip },
                None => Step::NoResponse,
            },
            _ => Step::NoResponse,
        }
    }

    /// Puts the lease of `ip` in `net` into an answer.
    pub fn set_lease(&self, resp: DhcpResponse, ip: u32, net: NetConfig) -> (r: DhcpResponse)
        ensures
            r == leased(*self, resp, ip, net),
            r.lease == Some(
                LeaseGrant { yiaddr: ip, net, lease: self.lease, renew: self.renew, rebind: self.rebind },
            ),
            r.opcode == resp.opcode && r.htype == resp.htype && r.hops == resp.hops && r.xid == resp.xid
                && r.flags == resp.flags && r.siaddr == resp.siaddr && r.giaddr == resp.giaddr
                && r.chaddr@ == resp.chaddr@ && r.msg_type == resp.msg_type && r.server_id
                == resp.server_id,
    {
        let mut r = resp;
        r.lease = Some(
            LeaseGrant { yiaddr: ip, net, lease: self.lease, renew: self.renew, rebind: self.rebind },
        );
        r
    }

    /// Ends a DISCOVER once the pool answered: the device's address, or the
    /// one it may have, is offered; with the pool exhausted, silence.
    pub fn discover_reply(&self, resp: DhcpResponse, net: NetConfig, outcome: ClaimOutcome) -> (a: Action)
        ensures
            a == discover_action(*self, resp, net, outcome),
            match outcome {
                ClaimOutcome::Granted(ip) | ClaimOutcome::Mismatch(ip) => a matches Action::Continue(r)
                    && r.lease == Some(
                    LeaseGrant {
                        yiaddr: ip,
                        net,
                        lease: self.lease,
                        renew: self.renew,
                        rebind: self.rebind,
                    },
                ) && r.msg_type == resp.msg_type && r.xid == resp.xid && r.chaddr@ == resp.chaddr@,
                ClaimOutcome::Unavailable => a is NoResponse,
            },
    {
        match outcome {
            ClaimOutcome::Granted(ip) => Action::Continue(self.set_lease(resp, ip, net)),
            ClaimOutcome::Mismatch(ip) => Action::Continue(self.set_lease(resp, ip, net)),
            ClaimOutcome::Unavailable => Action::NoResponse,
        }
    }

    /// Ends a REQUEST once the pool answered: a granted address is
    /// acknowledged; a mismatch or an unavailable address is refused.
    pub fn request_reply(&self, resp: DhcpResponse, net: NetConfig, outcome: ClaimOutcome) -> (a: Action)
        ensures
            a == request_action(resp, outcome, leased(*self, resp, outcome->Granted_0, net)),
            match outcome {
                ClaimOutcome::Granted(ip) => a matches Action::Continue(r) && r.lease == Some(
                    LeaseGrant {
                        yiaddr: ip,
                        net,
                        lease: self.lease,
                        renew: self.renew,
                        rebind: self.rebind,
                    },
                ) && r.msg_type == resp.msg_type && r.xid == resp.xid && r.chaddr@ == resp.chaddr@,
                _ => a matches Action::Respond(r) && r.msg_type == MessageType::Nak && r.lease is None
                    && r.xid == resp.xid && r.chaddr@ == resp.chaddr@,
            },
    {
        match outcome {
            ClaimOutcome::Granted(ip) => Action::Continue(self.set_lease(resp, ip, net)),
            _ => {
                let mut r = resp;
                r.msg_type = MessageType::Nak;
                r.lease = None;
                Action::Respond(r)
            },
        }
    }
}

fn clone_bytes(v: &Vec<u8>) -> (r: Vec<u8>)
    ensures
        r@ == v@,
{
    let mut r: Vec<u8> = Vec::new();
    let mut i: usize = 0;
    while i < v.len()
        invariant
            0 <= i <= v@.len(),
            r@ == v@.take(i as int),
        decreases v@.len() - i,
    {
        r.push(v[i]);
        i = i + 1;
    }
    assert(v@.take(v@.len() as int) == v@);
    r
}

/// The VLAN hint: option 82 first, else the VLAN of the interface the
/// message arrived on.
pub fn vlan_hint(from_relay: Option<i32>, from_interface: Option<i32>) -> (v: Option<i32>)
    ensures
        v == (if from_relay is Some {
            from_relay
        } else {
            from_interface
        }),
{
    match from_relay {
        Some(v) => Some(v),
        None => from_interface,
    }
}

/// The network a realm can serve: it needs a router and a subnet mask; a
/// DNS server is optional.
pub fn net_config(router: Option<u32>, dns: Option<u32>, subnet_mask: Option<u32>) -> (n: Option<NetConfig>)
    ensures
        n == (match (router, subnet_mask) {
            (Some(r), Some(m)) => Some(NetConfig { router: r, dns, subnet_mask: m }),
            _ => None,
        }),
{
    match (router, subnet_mask) {
        (Some(r), Some(m)) => Some(NetConfig { router: r, dns, subnet_mask: m }),
        _ => None,
    }
}

/// A registered device and its realm, as the device lookup finds them.
#[derive(Clone, Copy, Debug, PartialEq, Eq, Structural)]
pub struct Device {
    pub realm_id: u128,
    pub device_id: u128,
    /// `None` when the realm lacks a router or subnet: not servable.
    pub net: Option<NetConfig>,
}

/// Whom a DISCOVER or REQUEST can be served for: a known device in a
/// realm with a router and a subnet. Anything else gets no answer at all,
/// not a NAK: other servers may know the client.
pub open spec fn served(device: Option<Device>) -> Option<(u128, u128, NetConfig)> {
    match device {
        Some(Device { realm_id, device_id, net: Some(n) }) => Some((realm_id, device_id, n)),
        _ => None,
    }
}

pub fn servable(device: Option<Device>) -> (r: Option<(u128, u128, NetConfig)>)
    ensures
        r == served(device),
{
    match device {
        Some(Device { realm_id, device_id, net: Some(n) }) => Some((realm_id, device_id, n)),
        _ => None,
    }
}

impl VialoDhcp {
    /// Carries out a step once the device lookup has answered: `found` is
    /// the device (and its realm) the sender's MAC and VLAN hint name, for a
    /// DISCOVER or REQUEST; `sender` is the id of the device with the
    /// sender's MAC, for a RELEASE or DECLINE. A DISCOVER claims an address
    /// (option 50 only preferred) and offers it; a REQUEST claims exactly the
    /// requested address and acknowledges or refuses it; an unknown or
    /// unservable device gets no answer. A RELEASE ends the sender's lease
    /// and a DECLINE quarantines the address for the probation, both
    /// silently. Leases run `lease.secs` seconds from `now`.
    pub fn serve(&self, pool: &mut LeaseTable, step: Step, found: Option<Device>, sender: Option<u128>, now: u64) -> (a: Action)
        requires
            now + self.lease.secs <= u64::MAX,
            now + self.probation <= u64::MAX,
        ensures
            match step {
                Step::Discover { resp, preferred } => match served(found) {
                    Some((realm, device, net)) => {
                        let (rows, outcome) = claim_spec(old(pool)@, realm, device, preferred, false, now, (now + self.lease.secs) as u64);
                        &&& final(pool)@ == rows
                        &&& a == discover_action(*self, resp, net, outcome)
                    },
                    None => a is NoResponse && final(pool)@ == old(pool)@,
                },
                Step::Request { resp, requested } => match served(found) {
                    Some((realm, device, net)) => {
                        let (rows, outcome) = claim_spec(old(pool)@, realm, device, Some(requested), true, now, (now + self.lease.secs) as u64);
                        &&& final(pool)@ == rows
                        &&& a == request_action(resp, outcome, leased(*self, resp, requested, net))
                    },
                    None => a is NoResponse && final(pool)@ == old(pool)@,
                },
                Step::Release => a is NoResponse && match sender {
                    Some(d) => final(pool)@ == end_lease_spec(old(pool)@, d, now).0,
                    None => final(pool)@ == old(pool)@,
                },
                Step::Decline { ip } => a is NoResponse && match sender {
                    Some(d) => final(pool)@ == quarantine_spec(old(pool)@, d, ip, (now + self.probation) as u64).0,
                    None => final(pool)@ == old(pool)@,
                },
                Step::NoResponse => a is NoResponse && final(pool)@ == old(pool)@,
            },
    {
        match step {
            Step::Discover { resp, preferred } => match servable(found) {
                Some((realm, device, net)) => {
                    let outcome = pool.claim_ip(realm, device, preferred, false, now, self.lease.secs);
                    self.discover_reply(resp, net, outcome)
                },
                None => Action::NoResponse,
            },
            Step::Request { resp, requested } => match servable(found) {
                Some((realm, device, net)) => {
                    let outcome = pool.claim_ip(realm, device, Some(requested), true, now, self.lease.secs);
                    proof {
                        super::lease_laws::law_enforced_claim_grants_only_requested(
                            old(pool)@, realm, device, Some(requested), now, (now + self.lease.secs) as u64,
                        );
                    }
                    self.request_reply(resp, net, outcome)
                },
                None => Action::NoResponse,
            },
            Step::Release => {
                if let Some(d) = sender {
                    pool.end_lease(d, now);
                }
                Action::NoResponse
            },
            Step::Decline { ip } => {
                if let Some(d) = sender {
                    pool.quarantine_ip(d, ip, now, self.probation);
                }
                Action::NoResponse
            },
            Step::NoResponse => Action::NoResponse,
        }
    }
}

/// The client hardware address as a MAC address: exactly six bytes.
pub fn mac_to_macaddr(chaddr: &[u8]) -> (m: Option<[u8; 6]>)
    ensures
        chaddr@.len() == 6 <==> m is Some,
        m matches Some(a) ==> a@ == chaddr@,
{
    if chaddr.len() != 6 {
        return None;
    }
    let a: [u8; 6] = [chaddr[0], chaddr[1], chaddr[2], chaddr[3], chaddr[4], chaddr[5]];
    assert(a@ =~= chaddr@);
    Some(a)
}

/// One entry of a link's `IFLA_LINKINFO`, as far as VLANs matter.
#[derive(Clone, Debug)]
pub enum LinkInfoItem {
    /// The link kind is `vlan`.
    VlanKind,
    OtherKind,
    /// VLAN data: each attribute's VLAN id, where the attribute is one.
    VlanData(Vec<Option<u16>>),
    OtherData,
}

/// One attribute of a link.
#[derive(Clone, Debug)]
pub enum LinkAttr {
    Info(Vec<LinkInfoItem>),
    Other,
}

pub open spec fn first_id_from(nlas: Seq<Option<u16>>, i: int) -> Option<u16>
    decreases nlas.len() - i,
{
    if i < 0 || i >= nlas.len() {
        None
    } else {
        match nlas[i] {
            Some(id) => Some(id),
            None => first_id_from(nlas, i + 1),
        }
    }
}

pub open spec fn infos_vlan_from(infos: Seq<LinkInfoItem>, i: int) -> Option<u16>
    decreases infos.len() - i,
{
    if i < 0 || i >= infos.len() {
        None
    } else {
        match infos[i] {
            LinkInfoItem::VlanData(nlas) => match first_id_from(nlas@, 0) {
                Some(id) => Some(id),
                None => infos_vlan_from(infos, i + 1),
            },
            _ => infos_vlan_from(infos, i + 1),
        }
    }
}

pub open spec fn is_vlan_link(infos: Seq<LinkInfoItem>) -> bool {
    exists|k: int| 0 <= k < infos.len() && infos[k] is VlanKind
}

/// The VLAN id of a link: the first link-info attribute decides; a link
/// that is not of kind `vlan` has none.
pub open spec fn link_vlan_from(attrs: Seq<LinkAttr>, i: int) -> Option<i32>
    decreases attrs.len() - i,
{
    if i < 0 || i >= attrs.len() {
        None
    } else {
        match attrs[i] {
            LinkAttr::Other => link_vlan_from(attrs, i + 1),
            LinkAttr::Info(infos) => if !is_vlan_link(infos@) {
                None
            } else {
                match infos_vlan_from(infos@, 0) {
                    Some(id) => Some(id as i32),
                    None => link_vlan_from(attrs, i + 1),
                }
            },
        }
    }
}

fn first_id(nlas: &Vec<Option<u16>>) -> (r: Option<u16>)
    ensures
        r == first_id_from(nlas@, 0),
{
    let mut i: usize = 0;
    while i < nlas.len()
        invariant
            0 <= i <= nlas@.len(),
            first_id_from(nlas@, 0) == first_id_from(nlas@, i as int),
        decreases nlas@.len() - i,
    {
        if let Some(id) = nlas[i] {
            return Some(id);
        }
        i = i + 1;
    }
    None
}

fn infos_vlan(infos: &Vec<LinkInfoItem>) -> (r: (bool, Option<u16>))
    ensures
        r.0 == is_vlan_link(infos@),
        r.1 == infos_vlan_from(infos@, 0),
{
    let mut is_vlan = false;
    let mut i: usize = 0;
    while i < infos.len()
        invariant
            0 <= i <= infos@.len(),
            is_vlan == (exists|k: int| 0 <= k < i && infos@[k] is VlanKind),
        decreases infos@.len() - i,
    {
        if let LinkInfoItem::VlanKind = infos[i] {
            is_vlan = true;
        }
        i = i + 1;
    }
    let mut j: usize = 0;
    while j < infos.len()
        invariant
            0 <= j <= infos@.len(),
            infos_vlan_from(infos@, 0) == infos_vlan_from(infos@, j as int),
            is_vlan == is_vlan_link(infos@),
        decreases infos@.len() - j,
    {
        if let LinkInfoItem::VlanData(nlas) = &infos[j] {
            let id = first_id(nlas);
            if id.is_some() {
                return (is_vlan, id);
            }
        }
        j = j + 1;
    }
    (is_vlan, None)
}

/// The VLAN id of a link from its attributes (see `link_vlan_from`).
pub fn vlan_of_link(attrs: &[LinkAttr]) -> (v: Option<i32>)
    ensures
        v == link_vlan_from(attrs@, 0),
{
    let mut i: usize = 0;
    while i < attrs.len()
        invariant
            0 <= i <= attrs@.len(),
            link_vlan_from(attrs@, 0) == link_vlan_from(attrs@, i as int),
        decreases attrs@.len() - i,
    {
        if let LinkAttr::Info(infos) = &attrs[i] {
            let (is_vlan, id) = infos_vlan(infos);
            if !is_vlan {
                return None;
            }
            if let Some(id) = id {
                return Some(id as i32);
            }
        }
        i = i + 1;
    }
    None
}

/// Renewal comes no later than rebinding, and rebinding no later than the
/// end of the lease.
pub proof fn law_timers_ordered(lease_secs: u64)
    ensures
        0 <= half_nanos(lease_secs) <= seven_eighths_nanos(lease_secs) <= lease_secs * 1_000_000_000,
{
    assert(half_nanos(lease_secs) <= seven_eighths_nanos(lease_secs)) by (nonlinear_arith)
        requires
            lease_secs >= 0,
    ;
    assert(seven_eighths_nanos(lease_secs) <= lease_secs * 1_000_000_000) by (nonlinear_arith)
        requires
            lease_secs >= 0,
    ;
}

} // verus!
