use vialo::dhcp::circuit::{vlan_from_circuit_id, CircuitIdMode};
use vialo::dhcp::config::{
    default_lease_time, default_listen, default_pg_max_connections, default_probation, DhcpConfig,
    ListenAddr,
};
use vialo::dhcp::lease::{ClaimOutcome, LeaseRow, LeaseTable};
use vialo::dhcp::message::{
    servable, Device, mac_to_macaddr, net_config, vlan_hint, vlan_of_link, Action, DhcpRequest, LinkAttr,
    LinkInfoItem, MessageType, NetConfig, Span, Step, VialoDhcp, BOOT_REPLY, BROADCAST_FLAG,
};

fn ip(a: u8, b: u8, c: u8, d: u8) -> u32 {
    u32::from_be_bytes([a, b, c, d])
}

/// The pool a realm's subnet gets: every host address but the router and
/// the DNS server.
fn pool(realm: u128, network: u32, prefix: u32, router: u32, dns: u32) -> Vec<LeaseRow> {
    let size = 1u32 << (32 - prefix);
    (1..size - 1)
        .map(|i| network + i)
        .filter(|a| *a != router && *a != dns)
        .map(|a| LeaseRow { ip: a, realm, device: None, expires: None })
        .collect()
}

fn granted(o: ClaimOutcome) -> u32 {
    match o {
        ClaimOutcome::Granted(ip) => ip,
        other => panic!("expected Granted, got {other:?}"),
    }
}

const LEASE: u64 = 3600;
const PROBATION: u64 = 600;

#[test]
fn circuit_id_mode_parses() {
    assert_eq!("off".parse::<CircuitIdMode>().unwrap(), CircuitIdMode::Off);
    assert_eq!(
        "ascii".parse::<CircuitIdMode>().unwrap(),
        CircuitIdMode::Ascii
    );
    assert_eq!(
        "binary".parse::<CircuitIdMode>().unwrap(),
        CircuitIdMode::BinaryU16
    );
    assert!("nonsense".parse::<CircuitIdMode>().is_err());
}

#[test]
fn discover_is_sticky() {
    let realm = 1;
    let mut t = LeaseTable::from_rows(pool(
        realm,
        ip(10, 200, 0, 0),
        29,
        ip(10, 200, 0, 1),
        ip(10, 200, 0, 2),
    ))
    .unwrap();
    let dev = 7;
    let first = granted(t.claim_ip(realm, dev, None, false, 1000, LEASE));
    let second = granted(t.claim_ip(realm, dev, None, false, 1001, LEASE));
    assert_eq!(first, ip(10, 200, 0, 3));
    assert_eq!(first, second);
}

#[test]
fn concurrent_claims_never_share_an_ip() {
    let realm = 1;
    // /30 with router == dns == .1 leaves exactly one usable address: .2
    let mut t = LeaseTable::from_rows(pool(
        realm,
        ip(10, 200, 0, 0),
        30,
        ip(10, 200, 0, 1),
        ip(10, 200, 0, 1),
    ))
    .unwrap();
    let a = t.claim_ip(realm, 1, None, false, 1000, LEASE);
    let b = t.claim_ip(realm, 2, None, false, 1000, LEASE);
    let outcomes = [a, b];
    let grants = outcomes
        .iter()
        .filter(|o| matches!(o, ClaimOutcome::Granted(_)))
        .count();
    let unavail = outcomes
        .iter()
        .filter(|o| matches!(o, ClaimOutcome::Unavailable))
        .count();
    assert_eq!(grants, 1, "exactly one device may win the last IP");
    assert_eq!(unavail, 1);
}

#[test]
fn realm_move_clears_stale_assignment() {
    let (realm_a, realm_b) = (1, 2);
    let mut rows = pool(realm_a, ip(10, 210, 0, 0), 29, ip(10, 210, 0, 1), ip(10, 210, 0, 2));
    rows.extend(pool(realm_b, ip(10, 211, 0, 0), 29, ip(10, 211, 0, 1), ip(10, 211, 0, 2)));
    let mut t = LeaseTable::from_rows(rows).unwrap();
    let dev = 7;

    let ip_a = granted(t.claim_ip(realm_a, dev, None, false, 1000, LEASE));
    assert_eq!(ip_a, ip(10, 210, 0, 3));

    let ip_b = granted(t.claim_ip(realm_b, dev, None, false, 1001, LEASE));
    assert_eq!(ip_b, ip(10, 211, 0, 3));
    let old = t.rows().iter().find(|r| r.ip == ip(10, 210, 0, 3)).unwrap();
    assert_eq!(old.device, None, "old realm row freed");
}

#[test]
fn request_enforces_assigned_ip() {
    let realm = 1;
    let mut t = LeaseTable::from_rows(pool(
        realm,
        ip(10, 200, 0, 0),
        29,
        ip(10, 200, 0, 1),
        ip(10, 200, 0, 2),
    ))
    .unwrap();
    let dev = 7;
    let assigned = granted(t.claim_ip(realm, dev, None, false, 1000, LEASE));
    let wrong = ip(10, 200, 0, 9);
    match t.claim_ip(realm, dev, Some(wrong), true, 1001, LEASE) {
        ClaimOutcome::Mismatch(a) => assert_eq!(a, assigned),
        other => panic!("expected Mismatch, got {other:?}"),
    }
    assert_eq!(
        granted(t.claim_ip(realm, dev, Some(assigned), true, 1002, LEASE)),
        assigned
    );
}

#[test]
fn release_keeps_binding() {
    let realm = 1;
    let mut t = LeaseTable::from_rows(pool(
        realm,
        ip(10, 200, 0, 0),
        29,
        ip(10, 200, 0, 1),
        ip(10, 200, 0, 2),
    ))
    .unwrap();
    let dev = 7;
    let a = granted(t.claim_ip(realm, dev, None, false, 1000, LEASE));
    assert_eq!(t.end_lease(dev, 1010), Some(a));
    let row = t.rows().iter().find(|r| r.ip == ip(10, 200, 0, 3)).unwrap();
    assert_eq!(row.device, Some(dev));
    assert_eq!(granted(t.claim_ip(realm, dev, None, false, 1020, LEASE)), a);
}

#[test]
fn decline_quarantines_ip() {
    let realm = 1;
    let mut t = LeaseTable::from_rows(pool(
        realm,
        ip(10, 200, 0, 0),
        30,
        ip(10, 200, 0, 1),
        ip(10, 200, 0, 1),
    ))
    .unwrap();
    let a = granted(t.claim_ip(realm, 1, None, false, 1000, LEASE));
    assert_eq!(a, ip(10, 200, 0, 2));
    assert!(t.quarantine_ip(1, a, 1001, PROBATION));
    // A device that doesn't hold the address can't quarantine it.
    assert!(!t.quarantine_ip(2, a, 1002, PROBATION));
    // The only address is quarantined, so another device gets nothing.
    assert!(matches!(
        t.claim_ip(realm, 2, None, false, 1003, LEASE),
        ClaimOutcome::Unavailable
    ));
}

#[test]
fn quarantine_ends_after_probation() {
    let realm = 1;
    let mut t = LeaseTable::from_rows(pool(
        realm,
        ip(10, 200, 0, 0),
        30,
        ip(10, 200, 0, 1),
        ip(10, 200, 0, 1),
    ))
    .unwrap();
    let a = granted(t.claim_ip(realm, 1, None, false, 1000, LEASE));
    assert!(t.quarantine_ip(1, a, 1000, PROBATION));
    assert!(matches!(
        t.claim_ip(realm, 2, None, false, 1000 + PROBATION - 1, LEASE),
        ClaimOutcome::Unavailable
    ));
    assert_eq!(
        granted(t.claim_ip(realm, 2, None, false, 1000 + PROBATION, LEASE)),
        a
    );
}

#[test]
fn expired_lease_is_reclaimed_after_untouched_addresses() {
    let realm = 1;
    let mut t = LeaseTable::from_rows(pool(
        realm,
        ip(10, 200, 0, 0),
        29,
        ip(10, 200, 0, 1),
        ip(10, 200, 0, 2),
    ))
    .unwrap();
    let first = granted(t.claim_ip(realm, 1, None, false, 0, 10));
    assert_eq!(first, ip(10, 200, 0, 3));
    // Long after the first lease ended, a new device still prefers an
    // address nobody held.
    let second = granted(t.claim_ip(realm, 2, None, false, 100, 10));
    assert_eq!(second, ip(10, 200, 0, 4));
}

#[test]
fn pool_with_duplicate_address_is_refused() {
    let rows = vec![
        LeaseRow { ip: 5, realm: 1, device: None, expires: None },
        LeaseRow { ip: 5, realm: 2, device: None, expires: None },
    ];
    assert!(LeaseTable::from_rows(rows).is_none());
}

#[test]
fn lookup_realm_without_router_has_no_netconfig() {
    assert!(net_config(None, None, Some(ip(255, 255, 255, 248))).is_none());
    assert_eq!(
        net_config(Some(ip(10, 0, 0, 1)), None, Some(ip(255, 255, 255, 0))),
        Some(NetConfig { router: ip(10, 0, 0, 1), dns: None, subnet_mask: ip(255, 255, 255, 0) })
    );
}

#[test]
fn circuit_id_vlans() {
    assert_eq!(vlan_from_circuit_id(CircuitIdMode::Ascii, b"200.1.4"), Some(200));
    assert_eq!(vlan_from_circuit_id(CircuitIdMode::Ascii, b"x200"), None);
    assert_eq!(vlan_from_circuit_id(CircuitIdMode::Ascii, b"99999999999"), None);
    assert_eq!(vlan_from_circuit_id(CircuitIdMode::BinaryU16, &[0x01, 0x02, 0xff]), Some(258));
    assert_eq!(vlan_from_circuit_id(CircuitIdMode::BinaryU16, &[0x01]), None);
    assert_eq!(vlan_from_circuit_id(CircuitIdMode::Off, b"200"), None);
    assert_eq!(vlan_from_circuit_id(CircuitIdMode::Ascii, &[0xff, 0x31]), None);
}

#[test]
fn dhcp_config_defaults() {
    assert_eq!(default_lease_time(), 10800);
    assert_eq!(default_probation(), 3600);
    assert_eq!(default_pg_max_connections(), 5);
    assert_eq!(default_listen(), ListenAddr::V4 { ip: 0, port: 67 });
    let cfg = DhcpConfig {
        siaddr: ip(10, 0, 0, 1),
        listen: default_listen(),
        interfaces: vec![],
        lease_time: 120,
        probation: 60,
        circuit_id_vlan: CircuitIdMode::default(),
        pg_max_connections: 5,
    };
    assert_eq!(cfg.lease(), 120);
    assert_eq!(cfg.probation(), 60);
    assert_eq!(cfg.circuit_id_vlan, CircuitIdMode::Ascii);
}

fn server() -> VialoDhcp {
    VialoDhcp::new(ip(10, 200, 0, 1), 3600, 600, CircuitIdMode::Off)
}

fn request(msg_type: Option<MessageType>) -> DhcpRequest {
    DhcpRequest {
        opcode: 1,
        htype: 1,
        hops: 0,
        xid: 42,
        flags: 0,
        ciaddr: 0,
        giaddr: 0,
        chaddr: vec![2, 0, 0, 0, 0, 1],
        msg_type,
        server_id: None,
        requested_ip: None,
        circuit_id: None,
    }
}

#[test]
fn lease_timers_are_half_and_seven_eighths() {
    let s = server();
    assert_eq!(s.lease, Span { secs: 3600, nanos: 0 });
    assert_eq!(s.renew, Span { secs: 1800, nanos: 0 });
    assert_eq!(s.rebind, Span { secs: 3150, nanos: 0 });
    let odd = VialoDhcp::new(1, 3, 0, CircuitIdMode::Off);
    assert_eq!(odd.renew, Span { secs: 1, nanos: 500_000_000 });
    assert_eq!(odd.rebind, Span { secs: 2, nanos: 625_000_000 });
}

#[test]
fn non_client_and_non_ethernet_messages_are_ignored() {
    let s = server();
    let mut r = request(Some(MessageType::Discover));
    r.opcode = 2;
    assert!(matches!(s.handle(&r), Step::NoResponse));
    let mut r = request(Some(MessageType::Discover));
    r.htype = 6;
    assert!(matches!(s.handle(&r), Step::NoResponse));
    let mut r = request(Some(MessageType::Discover));
    r.chaddr = vec![1, 2, 3];
    assert!(matches!(s.handle(&r), Step::NoResponse));
    assert!(matches!(s.handle(&request(None)), Step::NoResponse));
    assert!(matches!(s.handle(&request(Some(MessageType::Inform))), Step::NoResponse));
}

#[test]
fn discover_gets_an_offer_skeleton() {
    let s = server();
    let mut r = request(Some(MessageType::Discover));
    r.requested_ip = Some(ip(10, 200, 0, 5));
    match s.handle(&r) {
        Step::Discover { resp, preferred } => {
            assert_eq!(preferred, Some(ip(10, 200, 0, 5)));
            assert_eq!(resp.opcode, BOOT_REPLY);
            assert_eq!(resp.msg_type, MessageType::Offer);
            assert_eq!(resp.xid, 42);
            assert_eq!(resp.server_id, ip(10, 200, 0, 1));
            assert_eq!(resp.flags, 0);
            assert_eq!(resp.chaddr, vec![2, 0, 0, 0, 0, 1]);
        }
        other => panic!("expected Discover, got {other:?}"),
    }
}

#[test]
fn request_for_other_server_is_dropped() {
    let s = server();
    let mut r = request(Some(MessageType::Request));
    r.requested_ip = Some(ip(10, 200, 0, 3));
    r.server_id = Some(ip(10, 9, 9, 9));
    assert!(matches!(s.handle(&r), Step::NoResponse));
    r.server_id = Some(ip(10, 200, 0, 1));
    assert!(matches!(s.handle(&r), Step::Request { .. }));
}

#[test]
fn request_address_comes_from_option_50_then_ciaddr() {
    let s = server();
    let r = request(Some(MessageType::Request));
    assert!(matches!(s.handle(&r), Step::NoResponse));
    let mut r = request(Some(MessageType::Request));
    r.ciaddr = ip(10, 200, 0, 4);
    r.giaddr = ip(10, 1, 1, 1);
    match s.handle(&r) {
        Step::Request { resp, requested } => {
            assert_eq!(requested, ip(10, 200, 0, 4));
            assert_eq!(resp.msg_type, MessageType::Ack);
            assert_eq!(resp.flags, 0, "relayed requests are not broadcast");
        }
        other => panic!("expected Request, got {other:?}"),
    }
    let mut r = request(Some(MessageType::Request));
    r.ciaddr = ip(10, 200, 0, 4);
    r.requested_ip = Some(ip(10, 200, 0, 6));
    match s.handle(&r) {
        Step::Request { resp, requested } => {
            assert_eq!(requested, ip(10, 200, 0, 6));
            assert_eq!(resp.flags, BROADCAST_FLAG);
        }
        other => panic!("expected Request, got {other:?}"),
    }
}

#[test]
fn release_and_decline_are_silent() {
    let s = server();
    assert!(matches!(s.handle(&request(Some(MessageType::Release))), Step::Release));
    assert!(matches!(s.handle(&request(Some(MessageType::Decline))), Step::NoResponse));
    let mut r = request(Some(MessageType::Decline));
    r.requested_ip = Some(ip(10, 200, 0, 3));
    match s.handle(&r) {
        Step::Decline { ip: d } => assert_eq!(d, ip(10, 200, 0, 3)),
        other => panic!("expected Decline, got {other:?}"),
    }
}

#[test]
fn replies_follow_the_pool() {
    let s = server();
    let net = NetConfig { router: ip(10, 200, 0, 1), dns: Some(ip(10, 200, 0, 2)), subnet_mask: ip(255, 255, 255, 248) };
    let offer = s.build_response(&request(Some(MessageType::Discover)), MessageType::Offer, false);
    match s.discover_reply(offer, net, ClaimOutcome::Mismatch(ip(10, 200, 0, 3))) {
        Action::Continue(r) => {
            let g = r.lease.unwrap();
            assert_eq!(g.yiaddr, ip(10, 200, 0, 3));
            assert_eq!(g.net, net);
            assert_eq!(g.renew, Span { secs: 1800, nanos: 0 });
        }
        other => panic!("expected Continue, got {other:?}"),
    }
    let offer = s.build_response(&request(Some(MessageType::Discover)), MessageType::Offer, false);
    assert!(matches!(s.discover_reply(offer, net, ClaimOutcome::Unavailable), Action::NoResponse));
    let ack = s.build_response(&request(Some(MessageType::Request)), MessageType::Ack, true);
    match s.request_reply(ack, net, ClaimOutcome::Mismatch(ip(10, 200, 0, 3))) {
        Action::Respond(r) => {
            assert_eq!(r.msg_type, MessageType::Nak);
            assert!(r.lease.is_none());
        }
        other => panic!("expected Respond, got {other:?}"),
    }
    let ack = s.build_response(&request(Some(MessageType::Request)), MessageType::Ack, true);
    match s.request_reply(ack, net, ClaimOutcome::Granted(ip(10, 200, 0, 3))) {
        Action::Continue(r) => {
            assert_eq!(r.msg_type, MessageType::Ack);
            assert_eq!(r.lease.unwrap().yiaddr, ip(10, 200, 0, 3));
        }
        other => panic!("expected Continue, got {other:?}"),
    }
}

#[test]
fn vlan_hint_prefers_relay_information() {
    assert_eq!(vlan_hint(Some(200), Some(300)), Some(200));
    assert_eq!(vlan_hint(None, Some(300)), Some(300));
    assert_eq!(vlan_hint(None, None), None);
    let s = VialoDhcp::new(1, 60, 60, CircuitIdMode::Ascii);
    assert_eq!(s.vlan_from_opts(&Some(b"201.0.3".to_vec())), Some(201));
    assert_eq!(s.vlan_from_opts(&None), None);
}

#[test]
fn interface_vlan_from_link_attributes() {
    let vlan_link = vec![
        LinkAttr::Other,
        LinkAttr::Info(vec![
            LinkInfoItem::VlanKind,
            LinkInfoItem::VlanData(vec![None, Some(42)]),
        ]),
    ];
    assert_eq!(vlan_of_link(&vlan_link), Some(42));
    let plain = vec![LinkAttr::Info(vec![LinkInfoItem::OtherKind, LinkInfoItem::OtherData])];
    assert_eq!(vlan_of_link(&plain), None);
    assert_eq!(vlan_of_link(&[]), None);
}

#[test]
fn chaddr_must_be_six_bytes() {
    assert_eq!(mac_to_macaddr(&[1, 2, 3, 4, 5, 6]), Some([1, 2, 3, 4, 5, 6]));
    assert_eq!(mac_to_macaddr(&[1, 2, 3]), None);
}

#[test]
fn unknown_or_unservable_devices_get_no_answer() {
    let net = NetConfig { router: ip(10, 0, 0, 1), dns: None, subnet_mask: ip(255, 255, 255, 0) };
    assert_eq!(servable(None), None);
    assert_eq!(servable(Some(Device { realm_id: 1, device_id: 2, net: None })), None);
    assert_eq!(servable(Some(Device { realm_id: 1, device_id: 2, net: Some(net) })), Some((1, 2, net)));
}

#[test]
fn static_binding_is_never_reclaimed() {
    let realm = 1;
    let rows = vec![
        LeaseRow { ip: ip(10, 0, 0, 2), realm, device: Some(9), expires: None },
        LeaseRow { ip: ip(10, 0, 0, 3), realm, device: None, expires: None },
    ];
    let mut t = LeaseTable::from_rows(rows).unwrap();
    assert_eq!(
        granted(t.claim_ip(realm, 1, Some(ip(10, 0, 0, 2)), false, u64::MAX / 2, LEASE)),
        ip(10, 0, 0, 3)
    );
    assert!(matches!(t.claim_ip(realm, 2, None, false, u64::MAX / 2, LEASE), ClaimOutcome::Unavailable));
    assert_eq!(t.rows()[0].device, Some(9));
    assert_eq!(t.rows()[0].expires, None);
}

#[test]
fn timers_come_in_order() {
    for lease in [0u64, 1, 7, 3600, 86_401] {
        let s = VialoDhcp::new(1, lease, 0, CircuitIdMode::Off);
        let nanos = |sp: Span| sp.secs as u128 * 1_000_000_000 + sp.nanos as u128;
        assert!(nanos(s.renew) <= nanos(s.rebind));
        assert!(nanos(s.rebind) <= nanos(s.lease));
    }
}

#[test]
fn static_binding_stays_static() {
    let realm = 1;
    let rows = vec![
        LeaseRow { ip: ip(10, 0, 0, 2), realm, device: Some(7), expires: None },
        LeaseRow { ip: ip(10, 0, 0, 3), realm, device: None, expires: None },
    ];
    let mut t = LeaseTable::from_rows(rows).unwrap();
    assert_eq!(granted(t.claim_ip(realm, 7, None, false, 1000, LEASE)), ip(10, 0, 0, 2));
    assert_eq!(t.rows()[0].expires, None);
    assert_eq!(
        granted(t.claim_ip(realm, 7, Some(ip(10, 0, 0, 2)), true, 2000, LEASE)),
        ip(10, 0, 0, 2)
    );
    assert_eq!(t.rows()[0].expires, None);
    // long after any lease would have run out, nobody else gets it
    assert_eq!(granted(t.claim_ip(realm, 8, None, false, 1_000_000, LEASE)), ip(10, 0, 0, 3));
    assert_eq!(t.rows()[0].device, Some(7));
}

#[test]
fn enforced_claim_without_request_allocates_nothing() {
    let realm = 1;
    let mut t = LeaseTable::from_rows(vec![
        LeaseRow { ip: ip(10, 0, 0, 2), realm, device: None, expires: None },
    ])
    .unwrap();
    assert!(matches!(t.claim_ip(realm, 5, None, true, 1000, LEASE), ClaimOutcome::Unavailable));
    assert_eq!(t.rows()[0].device, None);
    assert!(matches!(
        t.claim_ip(realm, 5, Some(ip(10, 0, 0, 9)), true, 1000, LEASE),
        ClaimOutcome::Unavailable
    ));
    assert_eq!(t.rows()[0].device, None);
}

#[test]
fn lowest_free_address_first() {
    let realm = 1;
    let mut t = LeaseTable::from_rows(vec![
        LeaseRow { ip: ip(10, 0, 0, 9), realm, device: None, expires: None },
        LeaseRow { ip: ip(10, 0, 0, 2), realm, device: Some(3), expires: Some(10) },
        LeaseRow { ip: ip(10, 0, 0, 5), realm, device: None, expires: Some(10) },
    ])
    .unwrap();
    assert_eq!(granted(t.claim_ip(realm, 4, None, false, 1000, LEASE)), ip(10, 0, 0, 5));
    assert_eq!(granted(t.claim_ip(realm, 6, None, false, 1000, LEASE)), ip(10, 0, 0, 9));
    // only then is the expired lease of device 3 reclaimed
    assert_eq!(granted(t.claim_ip(realm, 7, None, false, 1000, LEASE)), ip(10, 0, 0, 2));
}

#[test]
fn serve_runs_the_whole_flow() {
    let s = server();
    let realm = 1;
    let mut pool = LeaseTable::from_rows(vec![
        LeaseRow { ip: ip(10, 200, 0, 5), realm, device: None, expires: None },
        LeaseRow { ip: ip(10, 200, 0, 6), realm, device: None, expires: None },
    ])
    .unwrap();
    let net = NetConfig { router: ip(10, 200, 0, 1), dns: None, subnet_mask: ip(255, 255, 255, 0) };
    let dev = Device { realm_id: realm, device_id: 77, net: Some(net) };

    // DISCOVER: offered the lowest free address
    let step = s.handle(&request(Some(MessageType::Discover)));
    match s.serve(&mut pool, step, Some(dev), None, 1000) {
        Action::Continue(r) => {
            assert_eq!(r.msg_type, MessageType::Offer);
            assert_eq!(r.lease.unwrap().yiaddr, ip(10, 200, 0, 5));
        }
        other => panic!("expected an offer, got {other:?}"),
    }
    // unknown device: silence
    let step = s.handle(&request(Some(MessageType::Discover)));
    assert!(matches!(s.serve(&mut pool, step, None, None, 1000), Action::NoResponse));
    // unservable realm: silence
    let step = s.handle(&request(Some(MessageType::Discover)));
    let bare = Device { realm_id: realm, device_id: 77, net: None };
    assert!(matches!(s.serve(&mut pool, step, Some(bare), None, 1000), Action::NoResponse));

    // REQUEST for the offered address: ACK
    let mut r = request(Some(MessageType::Request));
    r.requested_ip = Some(ip(10, 200, 0, 5));
    let step = s.handle(&r);
    match s.serve(&mut pool, step, Some(dev), None, 1001) {
        Action::Continue(a) => {
            assert_eq!(a.msg_type, MessageType::Ack);
            assert_eq!(a.lease.unwrap().yiaddr, ip(10, 200, 0, 5));
        }
        other => panic!("expected an ack, got {other:?}"),
    }
    // REQUEST for another address: NAK
    r.requested_ip = Some(ip(10, 200, 0, 6));
    let step = s.handle(&r);
    match s.serve(&mut pool, step, Some(dev), None, 1002) {
        Action::Respond(a) => {
            assert_eq!(a.msg_type, MessageType::Nak);
            assert!(a.lease.is_none());
        }
        other => panic!("expected a nak, got {other:?}"),
    }

    // RELEASE keeps the binding but ends the lease
    let step = s.handle(&request(Some(MessageType::Release)));
    assert!(matches!(s.serve(&mut pool, step, None, Some(77), 1003), Action::NoResponse));
    assert_eq!(pool.rows()[0].device, Some(77));
    assert_eq!(pool.rows()[0].expires, Some(1003));

    // DECLINE quarantines the sender's address
    let mut d = request(Some(MessageType::Decline));
    d.requested_ip = Some(ip(10, 200, 0, 5));
    let step = s.handle(&d);
    assert!(matches!(s.serve(&mut pool, step, None, Some(77), 1004), Action::NoResponse));
    assert_eq!(pool.rows()[0].device, None);
    assert_eq!(pool.rows()[0].expires, Some(1004 + 600));
}
