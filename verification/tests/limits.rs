use vialo::ppsk::{
    build_ppsk, listing_path, match_wlan, networks_path, next_page_offset, request_url,
    should_send_keys, wlan_path, wlans_path, ControllerNetwork, PpskCredential,
    WlanPresharedKeyNetworkType, WlanSummaryRef,
};
use vialo::http::errors::VialoError;
use vialo::rate_limit::{
    alarm_due, check_global, check_kiosk_pin, check_limit, check_user_or_address, client_ip,
    forwarded_candidate, limit_key, observe_status, quota_per_minute, reject, strike_update,
    IpAddress, LimitKey, Limiter, LimiterKind, StrikeCounter, StrikeUpdate, pick_limiter,
};
use vialo::ws::{EventSubscription, Subscriptions};

#[test]
fn quotas() {
    assert_eq!(quota_per_minute(LimiterKind::Global), 120);
    assert_eq!(quota_per_minute(LimiterKind::Authenticated), 200);
    assert_eq!(quota_per_minute(LimiterKind::Credential), 10);
    assert_eq!(quota_per_minute(LimiterKind::Credits), 5);
    assert_eq!(quota_per_minute(LimiterKind::Anonymous), 120);
    assert_eq!(quota_per_minute(LimiterKind::KioskPin), 10);
}

#[test]
fn clients_are_found_by_forwarding_header_then_peer() {
    assert_eq!(forwarded_candidate(" 10.0.0.7 , 10.0.0.1"), "10.0.0.7");
    assert_eq!(forwarded_candidate("203.0.113.5"), "203.0.113.5");
    let peer = IpAddress::V4(0x0a00_0001);
    assert_eq!(client_ip(Some(IpAddress::V4(7)), Some(peer)), IpAddress::V4(7));
    assert_eq!(client_ip(None, Some(peer)), peer);
    assert_eq!(client_ip(None, None), IpAddress::V4(0x7f00_0001));
    assert_eq!(limit_key(Some(9), peer), LimitKey::User(9));
    assert_eq!(limit_key(None, peer), LimitKey::Address(peer));
}

#[test]
fn refusals_tell_when_to_retry() {
    let r = reject(0);
    assert_eq!(r.status, 429);
    assert_eq!(r.retry_after, 1);
    assert_eq!(r.body, "Too many requests");
    assert_eq!(reject(41).retry_after, 42);
}

#[test]
fn strikes_raise_the_alarm_at_ten() {
    let ip = IpAddress::V4(5);
    let other = IpAddress::V6(1);
    let mut c = StrikeCounter::new();
    for n in 1..10 {
        assert_eq!(c.record_strike(ip), (n, false));
    }
    assert_eq!(c.record_strike(ip), (10, true));
    assert_eq!(c.record_strike(ip), (11, true));
    assert_eq!(c.strikes(other), 0);
    c.reset(ip);
    assert_eq!(c.strikes(ip), 0);
    assert_eq!(c.record_strike(ip), (1, false));
    c.reset(other);
    assert_eq!(c.strikes(other), 0);
}

#[test]
fn paging_through_listings() {
    assert_eq!(next_page_offset(100, 100, Some(250), 0), Some(100));
    assert_eq!(next_page_offset(250, 50, Some(250), 200), None);
    assert_eq!(next_page_offset(100, 100, None, 0), None);
    assert_eq!(next_page_offset(100, 100, Some(100), 0), None);
    assert_eq!(next_page_offset(40, 40, Some(500), 0), None);
}

#[test]
fn preshared_keys_from_credentials() {
    let nets = [
        ControllerNetwork { vlan_id: 200, id: "net-a".into() },
        ControllerNetwork { vlan_id: 201, id: "net-b".into() },
        ControllerNetwork { vlan_id: 200, id: "net-c".into() },
    ];
    let creds = [
        PpskCredential { password: "correcthorse".into(), vlan: 200, cred_id: 1 },
        PpskCredential { password: "short".into(), vlan: 201, cred_id: 2 },
        PpskCredential { password: "batterystaple".into(), vlan: 201, cred_id: 3 },
    ];
    let list = build_ppsk(&creds, &nets).unwrap();
    assert_eq!(list.bad_passwords, vec![2]);
    assert_eq!(list.keys.len(), 2);
    assert_eq!(list.keys[0].network.network_id.as_deref(), Some("net-c"));
    assert_eq!(list.keys[0].network.network_type, WlanPresharedKeyNetworkType::Specific);
    assert_eq!(list.keys[0].passphrase, "correcthorse");
    assert_eq!(list.keys[1].network.network_id.as_deref(), Some("net-b"));
    assert!(should_send_keys(&list));
    let lost = [PpskCredential { password: "longenough".into(), vlan: 999, cred_id: 4 }];
    assert_eq!(build_ppsk(&lost, &nets).err(), Some(999));
    let none = build_ppsk(&[], &nets).unwrap();
    assert!(!should_send_keys(&none));
    let long = "x".repeat(64);
    let creds = [PpskCredential { password: long, vlan: 200, cred_id: 5 }];
    assert_eq!(build_ppsk(&creds, &nets).unwrap().bad_passwords, vec![5]);
}

#[test]
fn wireless_networks_match_by_name() {
    let wlans = [
        WlanSummaryRef { name: "Dorm".into(), id: "w1".into() },
        WlanSummaryRef { name: "Guest".into(), id: "w2".into() },
        WlanSummaryRef { name: "Dorm".into(), id: "w3".into() },
    ];
    assert_eq!(match_wlan(&wlans, "Dorm").as_deref(), Some("w3"));
    assert_eq!(match_wlan(&wlans, "Guest").as_deref(), Some("w2"));
    assert_eq!(match_wlan(&wlans, "Staff"), None);
}

#[test]
fn subscriptions_forward_once() {
    let mut s = Subscriptions::new();
    let sub = EventSubscription { channel: "bookables".into(), id: 4 };
    assert_eq!(s.subscribe(&sub), Some(4));
    assert_eq!(s.subscribe(&sub), None);
    let other = EventSubscription { channel: "posts".into(), id: 4 };
    assert_eq!(s.subscribe(&other), None);
    let next = EventSubscription { channel: "bookables".into(), id: 5 };
    assert_eq!(s.subscribe(&next), Some(5));
}

#[test]
fn controller_paths() {
    assert_eq!(request_url("unifi.local", "/x"), "https://unifi.local/x");
    assert_eq!(networks_path("s1"), "/proxy/network/integration/v1/sites/s1/networks");
    assert_eq!(wlans_path("s1"), "/proxy/network/integration/v1/sites/s1/wifi/broadcasts");
    assert_eq!(
        wlan_path("s1", "w9"),
        "/proxy/network/integration/v1/sites/s1/wifi/broadcasts/w9"
    );
    assert_eq!(
        listing_path("/proxy/network/integration/v1/sites/s1/networks", 200),
        "/proxy/network/integration/v1/sites/s1/networks?offset=200&limit=100"
    );
    assert_eq!(listing_path("/a", 0), "/a?offset=0&limit=100");
}

#[test]
fn limiters_let_their_quota_through() {
    let credits = Limiter::new(LimiterKind::Credits);
    let key = LimitKey::User(7);
    for _ in 0..5 {
        assert!(check_limit(&credits, key).is_ok());
    }
    let r = check_limit(&credits, key).err().unwrap();
    assert_eq!(r.status, 429);
    assert!(r.retry_after >= 1);
    assert_eq!(r.body, "Too many requests");
    // another key has its own budget
    assert!(check_limit(&credits, LimitKey::User(8)).is_ok());
    assert!(check_limit(&credits, LimitKey::Address(IpAddress::V4(7))).is_ok());
}

#[test]
fn global_refusals_count_strikes() {
    let global = Limiter::new(LimiterKind::Global);
    let mut strikes = StrikeCounter::new();
    let ip = IpAddress::V4(0x0a00_0001);
    for _ in 0..120 {
        assert!(check_global(&global, &mut strikes, ip).is_ok());
    }
    assert_eq!(strikes.strikes(ip), 0);
    for n in 1..=10u32 {
        assert_eq!(check_global(&global, &mut strikes, ip).err().unwrap().status, 429);
        assert_eq!(strikes.strikes(ip), n);
        assert_eq!(alarm_due(&strikes, ip), n >= 10);
    }
    assert!(observe_status(&mut strikes, ip, 200) == false);
    assert_eq!(strikes.strikes(ip), 0);
}

#[test]
fn per_user_limits_fall_back_to_the_address() {
    let user = Limiter::new(LimiterKind::Credential);
    let anonymous = Limiter::new(LimiterKind::Anonymous);
    let ip = IpAddress::V6(1);
    for _ in 0..10 {
        assert!(check_user_or_address(&user, &anonymous, Some(3), ip).is_ok());
    }
    assert!(check_user_or_address(&user, &anonymous, Some(3), ip).is_err());
    assert!(check_user_or_address(&user, &anonymous, None, ip).is_ok());
}

#[test]
fn kiosk_pins_are_limited_by_address() {
    let kiosk = Limiter::new(LimiterKind::KioskPin);
    let ip = IpAddress::V4(9);
    for _ in 0..10 {
        assert!(check_kiosk_pin(&kiosk, ip).is_ok());
    }
    match check_kiosk_pin(&kiosk, ip) {
        Err(VialoError::AppError(status, code)) => {
            assert_eq!(status, 429);
            assert_eq!(code, "too_many_requests");
        }
        other => panic!("expected a refusal, got {other:?}"),
    }
}

#[test]
fn answers_update_strikes() {
    assert_eq!(strike_update(429), StrikeUpdate::Strike);
    assert_eq!(strike_update(200), StrikeUpdate::Clear);
    assert_eq!(strike_update(204), StrikeUpdate::Clear);
    assert_eq!(strike_update(404), StrikeUpdate::Keep);
    assert_eq!(strike_update(302), StrikeUpdate::Keep);
    let mut strikes = StrikeCounter::new();
    let ip = IpAddress::V4(1);
    for n in 1..=9u32 {
        assert!(!observe_status(&mut strikes, ip, 429));
        assert_eq!(strikes.strikes(ip), n);
    }
    assert!(observe_status(&mut strikes, ip, 429));
    assert!(!observe_status(&mut strikes, ip, 500));
    assert_eq!(strikes.strikes(ip), 10);
    assert!(!observe_status(&mut strikes, ip, 201));
    assert_eq!(strikes.strikes(ip), 0);
    assert_eq!(reject(u64::MAX).retry_after, u64::MAX);
}

#[test]
fn users_and_anonymous_clients_use_their_own_limiters() {
    let user = Limiter::new(LimiterKind::Authenticated);
    let anonymous = Limiter::new(LimiterKind::Anonymous);
    assert_eq!(pick_limiter(&user, &anonymous, Some(1)).kind, LimiterKind::Authenticated);
    assert_eq!(pick_limiter(&user, &anonymous, None).kind, LimiterKind::Anonymous);
}
