//! The network API's routes and the guards each passes: which are for
//! network managers only, and which share the tight credential rate limit.
use vstd::prelude::*;

verus! {

/// An HTTP method.
#[derive(Clone, Copy, Debug, PartialEq, Eq, Structural)]
pub enum Method {
    Get,
    Post,
    Put,
    Patch,
    Delete,
}

/// A route of the network API.
#[derive(Clone, Copy, Debug, PartialEq, Eq, Structural)]
pub enum NetworkRoute {
    ListNetworks,
    GetNetwork,
    PutNetwork,
    DeleteNetwork,
    PostNetwork,
    ListRealms,
    SetDefaultRealm,
    PutRealm,
    GetRealm,
    ListCredentials,
    GetCredential,
    PutCredential,
    DeleteCredential,
    GetMobileconfig,
    ListNmsConnectors,
    PostNmsConnector,
    GetNmsConnector,
    PutNmsConnector,
    DeleteNmsConnector,
    GetDeviceOverview,
    PostDevice,
    ListDevices,
    UpdateDevice,
    DeleteDevice,
}

/// What a request must pass before its handler runs.
#[derive(Clone, Copy, Debug, PartialEq, Eq, Structural)]
pub struct RouteGuards {
    /// The caller must be signed in.
    pub signed_in: bool,
    /// The caller must hold the network manager role.
    pub network_manager: bool,
    /// The request is counted in the credential limiter.
    pub credential_limit: bool,
}

/// The guards of each route. The network listing is open to everybody,
/// without signing in; every other route needs a signed-in caller.
/// the infrastructure (networks but their listing, realms but reading one,
/// the credential listing and the management-system connectors) is for
/// network managers. Routes that hand out a credential, and adding a device
/// (its answer carries one), share the credential limit; their handlers
/// check ownership. Reading a realm and the device routes check ownership
/// in their handlers.
pub open spec fn route_guards_spec(r: NetworkRoute) -> RouteGuards {
    match r {
        NetworkRoute::GetNetwork | NetworkRoute::PutNetwork | NetworkRoute::DeleteNetwork
        | NetworkRoute::PostNetwork | NetworkRoute::ListRealms | NetworkRoute::SetDefaultRealm
        | NetworkRoute::PutRealm | NetworkRoute::ListCredentials | NetworkRoute::ListNmsConnectors
        | NetworkRoute::PostNmsConnector | NetworkRoute::GetNmsConnector
        | NetworkRoute::PutNmsConnector | NetworkRoute::DeleteNmsConnector => RouteGuards {
            signed_in: true,
            network_manager: true,
            credential_limit: false,
        },
        NetworkRoute::GetCredential | NetworkRoute::PutCredential | NetworkRoute::DeleteCredential
        | NetworkRoute::GetMobileconfig | NetworkRoute::GetDeviceOverview
        | NetworkRoute::PostDevice => RouteGuards { signed_in: true, network_manager: false, credential_limit: true },
        NetworkRoute::ListNetworks => RouteGuards {
            signed_in: false,
            network_manager: false,
            credential_limit: false,
        },
        NetworkRoute::GetRealm | NetworkRoute::ListDevices | NetworkRoute::UpdateDevice
        | NetworkRoute::DeleteDevice => RouteGuards {
            signed_in: true,
            network_manager: false,
            credential_limit: false,
        },
    }
}

/// The guards a route passes.
pub fn network_route_guards(r: NetworkRoute) -> (g: RouteGuards)
    ensures
        g == route_guards_spec(r),
{
    match r {
        NetworkRoute::GetNetwork | NetworkRoute::PutNetwork | NetworkRoute::DeleteNetwork
        | NetworkRoute::PostNetwork | NetworkRoute::ListRealms | NetworkRoute::SetDefaultRealm
        | NetworkRoute::PutRealm | NetworkRoute::ListCredentials | NetworkRoute::ListNmsConnectors
        | NetworkRoute::PostNmsConnector | NetworkRoute::GetNmsConnector
        | NetworkRoute::PutNmsConnector | NetworkRoute::DeleteNmsConnector => RouteGuards {
            signed_in: true,
            network_manager: true,
            credential_limit: false,
        },
        NetworkRoute::GetCredential | NetworkRoute::PutCredential | NetworkRoute::DeleteCredential
        | NetworkRoute::GetMobileconfig | NetworkRoute::GetDeviceOverview
        | NetworkRoute::PostDevice => RouteGuards { signed_in: true, network_manager: false, credential_limit: true },
        NetworkRoute::ListNetworks => RouteGuards {
            signed_in: false,
            network_manager: false,
            credential_limit: false,
        },
        NetworkRoute::GetRealm | NetworkRoute::ListDevices | NetworkRoute::UpdateDevice
        | NetworkRoute::DeleteDevice => RouteGuards {
            signed_in: true,
            network_manager: false,
            credential_limit: false,
        },
    }
}

/// The method and path of each route, below the network API's prefix.
pub open spec fn route_endpoint_spec(r: NetworkRoute) -> (Method, Seq<char>) {
    match r {
        NetworkRoute::ListNetworks => (Method::Get, "/networks"@),
        NetworkRoute::GetNetwork => (Method::Get, "/networks/{id}"@),
        NetworkRoute::PutNetwork => (Method::Put, "/networks/{id}"@),
        NetworkRoute::DeleteNetwork => (Method::Delete, "/networks/{id}"@),
        NetworkRoute::PostNetwork => (Method::Post, "/networks"@),
        NetworkRoute::ListRealms => (Method::Get, "/realms"@),
        NetworkRoute::SetDefaultRealm => (Method::Post, "/realms/set_default"@),
        NetworkRoute::PutRealm => (Method::Put, "/realms/{id}"@),
        NetworkRoute::GetRealm => (Method::Get, "/realms/{id}"@),
        NetworkRoute::ListCredentials => (Method::Get, "/credentials"@),
        NetworkRoute::GetCredential => (Method::Get, "/credentials/{id}"@),
        NetworkRoute::PutCredential => (Method::Put, "/credentials/{id}"@),
        NetworkRoute::DeleteCredential => (Method::Delete, "/credentials/{id}"@),
        NetworkRoute::GetMobileconfig => (Method::Get, "/credentials/{id}/mobileconfig/{filename}"@),
        NetworkRoute::ListNmsConnectors => (Method::Get, "/nms-connectors"@),
        NetworkRoute::PostNmsConnector => (Method::Post, "/nms-connectors"@),
        NetworkRoute::GetNmsConnector => (Method::Get, "/nms-connectors/{id}"@),
        NetworkRoute::PutNmsConnector => (Method::Put, "/nms-connectors/{id}"@),
        NetworkRoute::DeleteNmsConnector => (Method::Delete, "/nms-connectors/{id}"@),
        NetworkRoute::GetDeviceOverview => (Method::Get, "/devices/{id}/overview"@),
        NetworkRoute::PostDevice => (Method::Post, "/devices"@),
        NetworkRoute::ListDevices => (Method::Get, "/devices"@),
        NetworkRoute::UpdateDevice => (Method::Patch, "/devices/{id}"@),
        NetworkRoute::DeleteDevice => (Method::Delete, "/devices/{id}"@),
    }
}

/// The method and path of a route.
pub fn network_route_endpoint(r: NetworkRoute) -> (e: (Method, &'static str))
    ensures
        e.0 == route_endpoint_spec(r).0,
        e.1@ == route_endpoint_spec(r).1,
{
    match r {
        NetworkRoute::ListNetworks => (Method::Get, "/networks"),
        NetworkRoute::GetNetwork => (Method::Get, "/networks/{id}"),
        NetworkRoute::PutNetwork => (Method::Put, "/networks/{id}"),
        NetworkRoute::DeleteNetwork => (Method::Delete, "/networks/{id}"),
        NetworkRoute::PostNetwork => (Method::Post, "/networks"),
        NetworkRoute::ListRealms => (Method::Get, "/realms"),
        NetworkRoute::SetDefaultRealm => (Method::Post, "/realms/set_default"),
        NetworkRoute::PutRealm => (Method::Put, "/realms/{id}"),
        NetworkRoute::GetRealm => (Method::Get, "/realms/{id}"),
        NetworkRoute::ListCredentials => (Method::Get, "/credentials"),
        NetworkRoute::GetCredential => (Method::Get, "/credentials/{id}"),
        NetworkRoute::PutCredential => (Method::Put, "/credentials/{id}"),
        NetworkRoute::DeleteCredential => (Method::Delete, "/credentials/{id}"),
        NetworkRoute::GetMobileconfig => (Method::Get, "/credentials/{id}/mobileconfig/{filename}"),
        NetworkRoute::ListNmsConnectors => (Method::Get, "/nms-connectors"),
        NetworkRoute::PostNmsConnector => (Method::Post, "/nms-connectors"),
        NetworkRoute::GetNmsConnector => (Method::Get, "/nms-connectors/{id}"),
        NetworkRoute::PutNmsConnector => (Method::Put, "/nms-connectors/{id}"),
        NetworkRoute::DeleteNmsConnector => (Method::Delete, "/nms-connectors/{id}"),
        NetworkRoute::GetDeviceOverview => (Method::Get, "/devices/{id}/overview"),
        NetworkRoute::PostDevice => (Method::Post, "/devices"),
        NetworkRoute::ListDevices => (Method::Get, "/devices"),
        NetworkRoute::UpdateDevice => (Method::Patch, "/devices/{id}"),
        NetworkRoute::DeleteDevice => (Method::Delete, "/devices/{id}"),
    }
}

/// The guards a request with `method` on `path` passes, when it names a
/// route of the network API.
pub fn guards_for(method: Method, path: &str) -> (g: Option<(NetworkRoute, RouteGuards)>)
    ensures
        g matches Some((r, gs)) ==> route_endpoint_spec(r) == (method, path@) && gs == route_guards_spec(
            r,
        ),
        g is None ==> forall|r: NetworkRoute| route_endpoint_spec(r) != (method, path@),
{
    let all: [NetworkRoute; 24] = [
        NetworkRoute::ListNetworks,
        NetworkRoute::GetNetwork,
        NetworkRoute::PutNetwork,
        NetworkRoute::DeleteNetwork,
        NetworkRoute::PostNetwork,
        NetworkRoute::ListRealms,
        NetworkRoute::SetDefaultRealm,
        NetworkRoute::PutRealm,
        NetworkRoute::GetRealm,
        NetworkRoute::ListCredentials,
        NetworkRoute::GetCredential,
        NetworkRoute::PutCredential,
        NetworkRoute::DeleteCredential,
        NetworkRoute::GetMobileconfig,
        NetworkRoute::ListNmsConnectors,
        NetworkRoute::PostNmsConnector,
        NetworkRoute::GetNmsConnector,
        NetworkRoute::PutNmsConnector,
        NetworkRoute::DeleteNmsConnector,
        NetworkRoute::GetDeviceOverview,
        NetworkRoute::PostDevice,
        NetworkRoute::ListDevices,
        NetworkRoute::UpdateDevice,
        NetworkRoute::DeleteDevice,
    ];
    let mut i: usize = 0;
    while i < 24
        invariant
            0 <= i <= 24,
            all@.len() == 24,
            all@ == seq![
                NetworkRoute::ListNetworks,
                NetworkRoute::GetNetwork,
                NetworkRoute::PutNetwork,
                NetworkRoute::DeleteNetwork,
                NetworkRoute::PostNetwork,
                NetworkRoute::ListRealms,
                NetworkRoute::SetDefaultRealm,
                NetworkRoute::PutRealm,
                NetworkRoute::GetRealm,
                NetworkRoute::ListCredentials,
                NetworkRoute::GetCredential,
                NetworkRoute::PutCredential,
                NetworkRoute::DeleteCredential,
                NetworkRoute::GetMobileconfig,
                NetworkRoute::ListNmsConnectors,
                NetworkRoute::PostNmsConnector,
                NetworkRoute::GetNmsConnector,
                NetworkRoute::PutNmsConnector,
                NetworkRoute::DeleteNmsConnector,
                NetworkRoute::GetDeviceOverview,
                NetworkRoute::PostDevice,
                NetworkRoute::ListDevices,
                NetworkRoute::UpdateDevice,
                NetworkRoute::DeleteDevice,
            ],
            forall|k: int| 0 <= k < i ==> route_endpoint_spec(#[trigger] all@[k]) != (method, path@),
        decreases 24 - i,
    {
        let r = all[i];
        let (m, p) = network_route_endpoint(r);
        if m == method && crate::text::same_text(p, path) {
            return Some((r, network_route_guards(r)));
        }
        i = i + 1;
    }
    proof {
        assert forall|r: NetworkRoute| route_endpoint_spec(r) != (method, path@) by {
            match r {
                NetworkRoute::ListNetworks => assert(route_endpoint_spec(all@[0]) != (method, path@)),
                NetworkRoute::GetNetwork => assert(route_endpoint_spec(all@[1]) != (method, path@)),
                NetworkRoute::PutNetwork => assert(route_endpoint_spec(all@[2]) != (method, path@)),
                NetworkRoute::DeleteNetwork => assert(route_endpoint_spec(all@[3]) != (method, path@)),
                NetworkRoute::PostNetwork => assert(route_endpoint_spec(all@[4]) != (method, path@)),
                NetworkRoute::ListRealms => assert(route_endpoint_spec(all@[5]) != (method, path@)),
                NetworkRoute::SetDefaultRealm => assert(route_endpoint_spec(all@[6]) != (method, path@)),
                NetworkRoute::PutRealm => assert(route_endpoint_spec(all@[7]) != (method, path@)),
                NetworkRoute::GetRealm => assert(route_endpoint_spec(all@[8]) != (method, path@)),
                NetworkRoute::ListCredentials => assert(route_endpoint_spec(all@[9]) != (method, path@)),
                NetworkRoute::GetCredential => assert(route_endpoint_spec(all@[10]) != (method, path@)),
                NetworkRoute::PutCredential => assert(route_endpoint_spec(all@[11]) != (method, path@)),
                NetworkRoute::DeleteCredential => assert(route_endpoint_spec(all@[12]) != (method, path@)),
                NetworkRoute::GetMobileconfig => assert(route_endpoint_spec(all@[13]) != (method, path@)),
                NetworkRoute::ListNmsConnectors => assert(route_endpoint_spec(all@[14]) != (method, path@)),
                NetworkRoute::PostNmsConnector => assert(route_endpoint_spec(all@[15]) != (method, path@)),
                NetworkRoute::GetNmsConnector => assert(route_endpoint_spec(all@[16]) != (method, path@)),
                NetworkRoute::PutNmsConnector => assert(route_endpoint_spec(all@[17]) != (method, path@)),
                NetworkRoute::DeleteNmsConnector => assert(route_endpoint_spec(all@[18]) != (method, path@)),
                NetworkRoute::GetDeviceOverview => assert(route_endpoint_spec(all@[19]) != (method, path@)),
                NetworkRoute::PostDevice => assert(route_endpoint_spec(all@[20]) != (method, path@)),
                NetworkRoute::ListDevices => assert(route_endpoint_spec(all@[21]) != (method, path@)),
                NetworkRoute::UpdateDevice => assert(route_endpoint_spec(all@[22]) != (method, path@)),
                NetworkRoute::DeleteDevice => assert(route_endpoint_spec(all@[23]) != (method, path@)),
            }
        }
    }
    None
}

} // verus!
