//! Registering devices: whose account a device is added to, which
//! credential it uses, and the credentials generated for it.
use super::mac::MacAddressWrapper;
use crate::http::errors::VialoError;
use crate::http::models::{IdOrAllQuery, IdOrMeOrAllQuery, IdOrMeQuery, resolve_spec};
use rand::distr::SampleString;
use vstd::prelude::*;
use vstd::string::StringExecFns;

verus! {

/// A new device: for an account on a network (a credential is found or
/// made), or for a given credential.
#[derive(Debug)]
pub enum PostDeviceSchema {
    ForAccount { label: String, mac: Option<MacAddressWrapper>, account_id: IdOrMeQuery, network_id: i32 },
    ForCred { label: String, mac: Option<MacAddressWrapper>, cred_id: u128 },
}

/// The label of a device after a change.
#[derive(Debug)]
pub struct UpdatedDeviceLabelResponse {
    pub label: Option<String>,
}

/// Query options of the device listing.
#[derive(Debug)]
pub struct DeviceQuerySchema {
    pub page: Option<i64>,
    pub limit: Option<i64>,
    pub search: Option<String>,
    pub account_id: IdOrMeOrAllQuery,
}

/// A credential or device may be used by its owner and by network managers.
pub fn check_own_or_network_manager(owns: bool, is_network_manager: bool) -> (r: Result<(), VialoError>)
    ensures
        r is Ok <==> (owns || is_network_manager),
        r matches Err(e) ==> e is Forbidden,
{
    if is_network_manager || owns {
        Ok(())
    } else {
        Err(VialoError::Forbidden)
    }
}

/// The account a device may be added to: the caller's own, or another one
/// for network managers only; `None` where that is refused.
pub open spec fn device_account_spec(account: IdOrMeQuery, user_id: u128, is_network_manager: bool) -> Option<u128> {
    match account {
        IdOrMeQuery::Me => Some(user_id),
        IdOrMeQuery::Id(id) => if id == user_id || is_network_manager {
            Some(id)
        } else {
            None
        },
    }
}

/// The account a device is added to (see `device_account_spec`).
pub fn device_account(account: IdOrMeQuery, user_id: u128, is_network_manager: bool) -> (r: Result<u128, VialoError>)
    ensures
        match device_account_spec(account, user_id, is_network_manager) {
            Some(a) => r == Ok::<u128, VialoError>(a),
            None => r matches Err(e) && e is Forbidden,
        },
{
    match account {
        IdOrMeQuery::Id(id) => {
            if id != user_id && !is_network_manager {
                return Err(VialoError::Forbidden);
            }
            Ok(id)
        },
        IdOrMeQuery::Me => Ok(user_id),
    }
}

/// Inactive networks take new devices from network managers only.
pub fn check_network_usable(active: bool, is_network_manager: bool) -> (r: Result<(), VialoError>)
    ensures
        r is Ok <==> (active || is_network_manager),
        r matches Err(e) ==> e is Forbidden,
{
    if !active && !is_network_manager {
        Err(VialoError::Forbidden)
    } else {
        Ok(())
    }
}

/// Whose devices a listing may show: one's own freely, anybody else's or
/// everybody's for network managers only; `None` where that is refused.
pub open spec fn listing_scope_spec(account_id: IdOrMeOrAllQuery, user_id: u128, is_network_manager: bool) -> Option<
    IdOrAllQuery,
> {
    let resolved = resolve_spec(account_id, user_id);
    if resolved == IdOrAllQuery::Id(user_id) || is_network_manager {
        Some(resolved)
    } else {
        None
    }
}

/// Whose devices a listing shows (see `listing_scope_spec`).
pub fn device_listing_scope(account_id: IdOrMeOrAllQuery, user_id: u128, is_network_manager: bool) -> (r: Result<
    IdOrAllQuery,
    VialoError,
>)
    ensures
        match listing_scope_spec(account_id, user_id, is_network_manager) {
            Some(q) => r == Ok::<IdOrAllQuery, VialoError>(q),
            None => r matches Err(e) && e is Forbidden,
        },
{
    let resolved = account_id.resolve(user_id);
    let own = match resolved {
        IdOrAllQuery::Id(id) => id == user_id,
        IdOrAllQuery::All => false,
    };
    if !own && !is_network_manager {
        return Err(VialoError::Forbidden);
    }
    Ok(resolved)
}

/// Anybody but a network manager only ever adds devices to, and lists the
/// devices of, their own account; network managers are refused nothing.
pub proof fn law_devices_stay_with_their_owner(
    account: IdOrMeQuery,
    listing: IdOrMeOrAllQuery,
    user_id: u128,
    is_network_manager: bool,
)
    ensures
        !is_network_manager ==> (device_account_spec(account, user_id, is_network_manager) matches Some(a)
            ==> a == user_id),
        !is_network_manager ==> (listing_scope_spec(listing, user_id, is_network_manager) matches Some(q)
            ==> q == IdOrAllQuery::Id(user_id)),
        is_network_manager ==> device_account_spec(account, user_id, is_network_manager) is Some
            && listing_scope_spec(listing, user_id, is_network_manager) is Some,
{
}

pub open spec fn is_alphanumeric(c: char) -> bool {
    ('0' <= c && c <= '9') || ('A' <= c && c <= 'Z') || ('a' <= c && c <= 'z')
}

/// `rand::distr::Alphanumeric.sample_string(&mut rand::rng(), len)`: the
/// characters are random, so the claim is only what holds of every outcome:
/// `len` characters, each an ASCII letter or digit.
#[verifier::external_body]
fn random_alphanumeric(len: usize) -> (s: String)
    ensures
        s@.len() == len,
        forall|i: int| 0 <= i < len ==> is_alphanumeric(#[trigger] s@[i]),
{
    rand::distr::Alphanumeric.sample_string(&mut rand::rng(), len)
}

/// A fresh credential for a network.
#[derive(Debug)]
pub struct NewCredentials {
    pub username: String,
    pub password: String,
}

/// Makes a fresh credential: a random 8-character user name and a random
/// 16-character password, of ASCII letters and digits.
pub fn generate_credentials() -> (c: NewCredentials)
    ensures
        c.username@.len() == 8,
        c.password@.len() == 16,
        forall|i: int| 0 <= i < 8 ==> is_alphanumeric(#[trigger] c.username@[i]),
        forall|i: int| 0 <= i < 16 ==> is_alphanumeric(#[trigger] c.password@[i]),
{
    let username = random_alphanumeric(8);
    let password = random_alphanumeric(16);
    NewCredentials { username, password }
}

/// A device insert refused for a MAC address already registered is a
/// conflict; any other failure is unexpected.
pub fn device_insert_error(unique_violation: bool, text: String) -> (e: VialoError)
    ensures
        unique_violation ==> (e matches VialoError::AppError(status, code) && status == 409 && code@
            == "mac_conflict"@),
        !unique_violation ==> e == VialoError::Anyhow(text),
{
    if unique_violation {
        proof {
            reveal_strlit("mac_conflict");
        }
        VialoError::AppError(409, String::from_str("mac_conflict"))
    } else {
        VialoError::Anyhow(text)
    }
}

/// Where a new device's credential comes from.
#[derive(Clone, Copy, Debug, PartialEq, Eq, Structural)]
pub enum CredentialChoice {
    /// The account's existing credential on the network.
    Reuse(u128),
    /// A newly generated one.
    Create,
}

/// On a network that allows several devices per credential, a device added
/// for an account reuses the account's credential on that network where it
/// has one (`existing`); otherwise a new credential is made.
pub fn credential_choice(multi_device: bool, existing: Option<u128>) -> (c: CredentialChoice)
    ensures
        c == (if multi_device && existing is Some {
            CredentialChoice::Reuse(existing->0)
        } else {
            CredentialChoice::Create
        }),
{
    match existing {
        Some(id) if multi_device => CredentialChoice::Reuse(id),
        _ => CredentialChoice::Create,
    }
}

/// A change or deletion that touched no row found nothing.
pub fn require_found(rows_affected: u64) -> (r: Result<(), VialoError>)
    ensures
        r is Ok <==> rows_affected > 0,
        r matches Err(e) ==> e is NotFound,
{
    if rows_affected == 0 {
        Err(VialoError::NotFound)
    } else {
        Ok(())
    }
}

/// What a device overview shows: the caller's own device; else, for network
/// managers, any device (or nothing found); else the overview is refused.
#[derive(Clone, Copy, Debug, PartialEq, Eq, Structural)]
pub enum OverviewSource {
    Own,
    AnyDevice,
}

pub fn device_overview_source(own_found: bool, is_network_manager: bool) -> (r: Result<OverviewSource, VialoError>)
    ensures
        own_found ==> r == Ok::<OverviewSource, VialoError>(OverviewSource::Own),
        !own_found && is_network_manager ==> r == Ok::<OverviewSource, VialoError>(OverviewSource::AnyDevice),
        !own_found && !is_network_manager ==> (r matches Err(e) && e is Forbidden),
{
    if own_found {
        Ok(OverviewSource::Own)
    } else if is_network_manager {
        Ok(OverviewSource::AnyDevice)
    } else {
        Err(VialoError::Forbidden)
    }
}

} // verus!
