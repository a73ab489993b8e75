use vialo::http::errors::VialoError;
use vialo::http::models::{IdOrAllQuery, IdOrMeOrAllQuery, IdOrMeQuery};
use vialo::network::devices::{
    check_network_usable, check_own_or_network_manager, device_account, device_insert_error,
    device_listing_scope, device_overview_source, generate_credentials, require_found,
    OverviewSource,
};
use vialo::network::mac::{MacAddressWrapper, MacDecodeError, PgMacValue};
use vialo::network::networks::{mobileconfig_fields, network_listed, MobileconfigSource};
use vialo::network::nms::{connector_update_statement, NmsType, PatchOption, PutNmsConnectorSchema};
use vialo::http::errors::require_one_row;
use vialo::network::router::{guards_for, network_route_endpoint, network_route_guards, Method, NetworkRoute, RouteGuards};
use vialo::network::devices::{credential_choice, CredentialChoice};

#[test]
fn devices_go_to_own_account_unless_manager() {
    assert_eq!(device_account(IdOrMeQuery::Me, 1, false).unwrap(), 1);
    assert_eq!(device_account(IdOrMeQuery::Id(1), 1, false).unwrap(), 1);
    assert!(matches!(device_account(IdOrMeQuery::Id(2), 1, false), Err(VialoError::Forbidden)));
    assert_eq!(device_account(IdOrMeQuery::Id(2), 1, true).unwrap(), 2);
    assert!(check_network_usable(false, false).is_err());
    assert!(check_network_usable(false, true).is_ok());
    assert!(check_own_or_network_manager(true, false).is_ok());
    assert!(check_own_or_network_manager(false, false).is_err());
}

#[test]
fn device_listing_scope_needs_manager_for_others() {
    assert_eq!(device_listing_scope(IdOrMeOrAllQuery::Me, 5, false).unwrap(), IdOrAllQuery::Id(5));
    assert!(device_listing_scope(IdOrMeOrAllQuery::All, 5, false).is_err());
    assert_eq!(device_listing_scope(IdOrMeOrAllQuery::All, 5, true).unwrap(), IdOrAllQuery::All);
    assert!(device_listing_scope(IdOrMeOrAllQuery::Id(6), 5, false).is_err());
}

#[test]
fn generated_credentials_are_alphanumeric() {
    let c = generate_credentials();
    assert_eq!(c.username.len(), 8);
    assert_eq!(c.password.len(), 16);
    assert!(c.username.chars().all(|ch| ch.is_ascii_alphanumeric()));
    assert!(c.password.chars().all(|ch| ch.is_ascii_alphanumeric()));
}

#[test]
fn device_errors() {
    match device_insert_error(true, "dup".into()) {
        VialoError::AppError(409, code) => assert_eq!(code, "mac_conflict"),
        other => panic!("unexpected {other:?}"),
    }
    assert!(matches!(device_insert_error(false, "x".into()), VialoError::Anyhow(_)));
    assert!(matches!(require_found(0), Err(VialoError::NotFound)));
    assert!(require_found(1).is_ok());
    assert_eq!(device_overview_source(true, false).unwrap(), OverviewSource::Own);
    assert_eq!(device_overview_source(false, true).unwrap(), OverviewSource::AnyDevice);
    assert!(device_overview_source(false, false).is_err());
}

#[test]
fn mac_addresses_round_trip() {
    let m = MacAddressWrapper::from_text("80:FA:5B:41:10:6B").unwrap();
    assert_eq!(m.get_value(), [128, 250, 91, 65, 16, 107]);
    assert_eq!(m.to_serialized(), "80:fa:5b:41:10:6b");
    let back = MacAddressWrapper::from_text(&m.to_serialized()).unwrap();
    assert_eq!(back.get_value(), m.get_value());
    let z = MacAddressWrapper { bytes: [0, 1, 2, 3, 4, 5] };
    assert_eq!(z.to_serialized(), "00:01:02:03:04:05");
    assert!(MacAddressWrapper::from_text("not a mac").is_none());
    assert_eq!(
        MacAddressWrapper::from_text("001122334455").unwrap().get_value(),
        [0, 0x11, 0x22, 0x33, 0x44, 0x55]
    );
}

#[test]
fn mac_decoding_from_the_database() {
    let m = MacAddressWrapper::decode(&PgMacValue::Binary(vec![1, 2, 3, 4, 5, 6])).unwrap();
    assert_eq!(m.get_value(), [1, 2, 3, 4, 5, 6]);
    assert_eq!(
        MacAddressWrapper::decode(&PgMacValue::Binary(vec![1, 2])).err(),
        Some(MacDecodeError::InvalidBytes)
    );
    let m = MacAddressWrapper::decode(&PgMacValue::Text("02:00:00:00:00:01".into())).unwrap();
    assert_eq!(m.get_value(), [2, 0, 0, 0, 0, 1]);
    assert_eq!(
        MacAddressWrapper::decode(&PgMacValue::Text("zz".into())).err(),
        Some(MacDecodeError::InvalidString)
    );
}

#[test]
fn mobileconfig_defaults() {
    let src = MobileconfigSource {
        cred_id: 0x67e5_5044_10b1_426f_9247_bb68_0e5f_e0c8,
        network_label: "Dorm".into(),
        network_ssid: None,
        tls_trust: None,
        outer_identity: None,
        account_full_name: None,
        device_label: Some("Laptop".into()),
    };
    let f = mobileconfig_fields(src, "example.org");
    assert_eq!(f.display_name, "67e55044-10b1-426f-9247-bb680e5fe0c8 \u{2014} Laptop");
    assert_eq!(f.ssid, "Dorm");
    assert_eq!(f.tls_trust, "example.org");
    assert_eq!(f.outer_identity, "anonymous@example.org");
    let src = MobileconfigSource {
        cred_id: 1,
        network_label: "Dorm".into(),
        network_ssid: Some("DormWifi".into()),
        tls_trust: Some("radius.example.org".into()),
        outer_identity: Some("x@y".into()),
        account_full_name: Some("Ada".into()),
        device_label: None,
    };
    let f = mobileconfig_fields(src, "example.org");
    assert_eq!(f.display_name, "Ada");
    assert_eq!(f.ssid, "DormWifi");
    assert_eq!(f.tls_trust, "radius.example.org");
    assert_eq!(f.outer_identity, "x@y");
    assert!(network_listed(true, false));
    assert!(!network_listed(false, false));
    assert!(network_listed(false, true));
}

fn connector_change(api_key: bool, username: bool, password: bool) -> PutNmsConnectorSchema {
    let pick = |b: bool| if b { PatchOption::Replace("x".to_string()) } else { PatchOption::Unchanged };
    PutNmsConnectorSchema {
        hostname: "unifi.local".to_string(),
        site_id: None,
        api_key: pick(api_key),
        username: pick(username),
        password: pick(password),
    }
}

#[test]
fn connector_updates_set_only_given_secrets() {
    assert_eq!(
        connector_update_statement(&connector_change(false, false, false)),
        "UPDATE net_nms_connectors SET hostname = $1, site_id = $2 WHERE id = $3 RETURNING id, type, hostname, site_id"
    );
    assert_eq!(
        connector_update_statement(&connector_change(true, false, true)),
        "UPDATE net_nms_connectors SET hostname = $1, site_id = $2, api_key = $3, password = $4 WHERE id = $5 RETURNING id, type, hostname, site_id"
    );
    assert_eq!(
        connector_update_statement(&connector_change(true, true, true)),
        "UPDATE net_nms_connectors SET hostname = $1, site_id = $2, api_key = $3, username = $4, password = $5 WHERE id = $6 RETURNING id, type, hostname, site_id"
    );
    assert_eq!(
        connector_update_statement(&connector_change(false, true, false)),
        "UPDATE net_nms_connectors SET hostname = $1, site_id = $2, username = $3 WHERE id = $4 RETURNING id, type, hostname, site_id"
    );
    assert_eq!(NmsType::Unifi.name(), "unifi");
}

#[test]
fn single_row_updates() {
    assert!(require_one_row(1).is_ok());
    assert!(matches!(require_one_row(0), Err(VialoError::NotFound)));
    assert!(matches!(require_one_row(2), Err(VialoError::NotFound)));
}

#[test]
fn multi_device_networks_reuse_the_credential() {
    assert_eq!(credential_choice(true, Some(9)), CredentialChoice::Reuse(9));
    assert_eq!(credential_choice(true, None), CredentialChoice::Create);
    assert_eq!(credential_choice(false, Some(9)), CredentialChoice::Create);
    assert_eq!(credential_choice(false, None), CredentialChoice::Create);
}

#[test]
fn network_routes_have_their_guards() {
    let manager = RouteGuards { signed_in: true, network_manager: true, credential_limit: false };
    let credential = RouteGuards { signed_in: true, network_manager: false, credential_limit: true };
    let owner = RouteGuards { signed_in: true, network_manager: false, credential_limit: false };
    assert_eq!(
        network_route_guards(NetworkRoute::ListNetworks),
        RouteGuards { signed_in: false, network_manager: false, credential_limit: false }
    );
    assert_eq!(network_route_guards(NetworkRoute::PostNetwork), manager);
    assert_eq!(network_route_guards(NetworkRoute::DeleteNmsConnector), manager);
    assert_eq!(network_route_guards(NetworkRoute::ListCredentials), manager);
    assert_eq!(network_route_guards(NetworkRoute::GetMobileconfig), credential);
    assert_eq!(network_route_guards(NetworkRoute::PostDevice), credential);
    assert_eq!(network_route_guards(NetworkRoute::GetDeviceOverview), credential);
    assert_eq!(network_route_guards(NetworkRoute::GetRealm), owner);
    assert_eq!(network_route_guards(NetworkRoute::ListDevices), owner);
    assert_eq!(network_route_endpoint(NetworkRoute::UpdateDevice), (Method::Patch, "/devices/{id}"));
    assert_eq!(network_route_endpoint(NetworkRoute::SetDefaultRealm), (Method::Post, "/realms/set_default"));
    assert_eq!(guards_for(Method::Get, "/realms/{id}"), Some((NetworkRoute::GetRealm, owner)));
    assert_eq!(guards_for(Method::Put, "/realms/{id}"), Some((NetworkRoute::PutRealm, manager)));
    assert_eq!(
        guards_for(Method::Get, "/credentials/{id}/mobileconfig/{filename}"),
        Some((NetworkRoute::GetMobileconfig, credential))
    );
    assert_eq!(guards_for(Method::Patch, "/networks/{id}"), None);
    assert_eq!(guards_for(Method::Get, "/elsewhere"), None);
}
