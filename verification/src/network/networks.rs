//! Networks and their credentials: which networks a person sees, and the
//! settings a configuration profile for a credential carries.
use crate::http::models::{uuid_chars, uuid_text};
use vstd::prelude::*;
use vstd::string::StringExecFns;

verus! {

/// How a network authenticates its users.
#[derive(Clone, Copy, Debug, PartialEq, Eq, Structural)]
pub enum NetAuth {
    UsernamePassword,
    Password,
}

/// A network.
#[derive(Debug)]
pub struct NetworkModel {
    pub id: i32,
    pub label: String,
    pub icon: Option<String>,
    pub multi_device: bool,
    pub auto_add_on_auth: bool,
    pub auto_add_via_dhcp: bool,
    pub auth: Option<NetAuth>,
    pub gen_username: Option<i32>,
    pub gen_password: Option<i32>,
    pub active: bool,
    pub wired: bool,
}

/// A network as it is created or replaced.
#[derive(Debug)]
pub struct PostOrPutNetworkSchema {
    pub label: String,
    pub icon: Option<String>,
    pub wired: bool,
    pub multi_device: bool,
    pub auto_add_on_auth: bool,
    pub auto_add_via_dhcp: bool,
    pub auth: Option<NetAuth>,
    pub gen_username: Option<i32>,
    pub gen_password: Option<i32>,
    pub active: bool,
    pub ssid: Option<String>,
    pub tls_trust: Option<String>,
    pub outer_identity: Option<String>,
}

/// A path parameter.
#[derive(Debug)]
pub struct ParamOptions {
    pub id: String,
}

/// Query options of the network listings.
#[derive(Debug)]
pub struct NetworkFilterOptions {
    pub search: Option<String>,
    pub page: Option<i64>,
    pub limit: Option<i64>,
}

/// New user name and password of a credential.
#[derive(Debug)]
pub struct PutCredentialSchema {
    pub username: Option<String>,
    pub password: Option<String>,
}

/// The id a network has in an external management system.
#[derive(Debug)]
pub struct PutNmsLinkSchema {
    pub nms_id: String,
}

/// Network managers see every network; everybody else the active ones.
pub fn network_listed(active: bool, is_network_manager: bool) -> (b: bool)
    ensures
        b == (active || is_network_manager),
{
    active || is_network_manager
}

/// What a configuration profile for a credential is filled with.
#[derive(Debug)]
pub struct MobileconfigFields {
    /// The profile's display name.
    pub display_name: String,
    pub ssid: String,
    /// The server name the client trusts.
    pub tls_trust: String,
    pub outer_identity: String,
}

/// The facts a configuration profile is made from.
#[derive(Debug)]
pub struct MobileconfigSource {
    pub cred_id: u128,
    pub network_label: String,
    pub network_ssid: Option<String>,
    pub tls_trust: Option<String>,
    pub outer_identity: Option<String>,
    /// The name of the person or group owning the credential, if known.
    pub account_full_name: Option<String>,
    /// The label of the device using the credential, on single-device networks.
    pub device_label: Option<String>,
}

pub open spec fn opt_or(o: Option<String>, d: Seq<char>) -> Seq<char> {
    match o {
        Some(s) => s@,
        None => d,
    }
}

/// The display name: the owner's name (the credential id where it is
/// unknown), followed by an em dash and the device label where there is one.
pub open spec fn display_name_of(src: MobileconfigSource) -> Seq<char> {
    let name = opt_or(src.account_full_name, uuid_chars(src.cred_id));
    match src.device_label {
        Some(l) => name + " \u{2014} "@ + l@,
        None => name,
    }
}

/// Fills a configuration profile: the SSID defaults to the network's label,
/// the trusted server name to the organisation's domain, and the outer
/// identity to `anonymous@` and that domain.
pub fn mobileconfig_fields(src: MobileconfigSource, org_domain: &str) -> (f: MobileconfigFields)
    ensures
        f.display_name@ == display_name_of(src),
        f.ssid@ == opt_or(src.network_ssid, src.network_label@),
        f.tls_trust@ == opt_or(src.tls_trust, org_domain@),
        f.outer_identity@ == opt_or(src.outer_identity, "anonymous@"@ + org_domain@),
{
    let name = match src.account_full_name {
        Some(n) => n,
        None => uuid_text(src.cred_id),
    };
    let display_name = match src.device_label {
        Some(l) => {
            let mut d = name;
            d.append(" \u{2014} ");
            d.append(l.as_str());
            d
        },
        None => name,
    };
    let ssid = match src.network_ssid {
        Some(s) => s,
        None => src.network_label,
    };
    let tls_trust = match src.tls_trust {
        Some(t) => t,
        None => org_domain.to_string(),
    };
    let outer_identity = match src.outer_identity {
        Some(o) => o,
        None => {
            let mut o = String::from_str("anonymous@");
            o.append(org_domain);
            o
        },
    };
    MobileconfigFields { display_name, ssid, tls_trust, outer_identity }
}

} // verus!
