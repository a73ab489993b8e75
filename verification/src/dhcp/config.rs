//! The `[dhcp]` section of the configuration file and its defaults.
use super::circuit::CircuitIdMode;
use vstd::prelude::*;

verus! {

/// A socket address to listen on.
#[derive(Clone, Copy, Debug, PartialEq, Eq, Structural)]
pub enum ListenAddr {
    V4 { ip: u32, port: u16 },
    V6 { ip6: u128, port: u16 },
}

/// `[dhcp]`: the DHCP server's settings.
#[derive(Clone, Debug)]
pub struct DhcpConfig {
    /// Server identifier: an address on the listen interface.
    pub siaddr: u32,
    pub listen: ListenAddr,
    /// Interfaces to bind; none binds every interface.
    pub interfaces: Vec<String>,
    /// Lease duration in seconds.
    pub lease_time: u64,
    /// How long a declined address stays quarantined, in seconds.
    pub probation: u64,
    pub circuit_id_vlan: CircuitIdMode,
    /// Maximum size of the database connection pool.
    pub pg_max_connections: u32,
}

/// All IPv4 addresses, port 67.
pub fn default_listen() -> (a: ListenAddr)
    ensures
        a == (ListenAddr::V4 { ip: 0, port: 67 }),
{
    ListenAddr::V4 { ip: 0, port: 67 }
}

/// Three hours.
pub fn default_lease_time() -> (s: u64)
    ensures
        s == 10800,
{
    10800
}

/// One hour.
pub fn default_probation() -> (s: u64)
    ensures
        s == 3600,
{
    3600
}

pub fn default_pg_max_connections() -> (n: u32)
    ensures
        n == 5,
{
    5
}

impl DhcpConfig {
    /// The lease duration, in seconds.
    pub fn lease(&self) -> (s: u64)
        ensures
            s == self.lease_time,
    {
        self.lease_time
    }

    /// The quarantine of a declined address, in seconds.
    pub fn probation(&self) -> (s: u64)
        ensures
            s == self.probation,
    {
        self.probation
    }
}

} // verus!
