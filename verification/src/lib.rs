//! Verified core of the vialo dorm platform: DHCP lease allocation and
//! request handling, request parsing, permission rules, rate-limit
//! bookkeeping and the printer and PPSK synchronisation rules.
pub mod dhcp;
pub mod text;
pub mod http;
pub mod printer;
pub mod permissions;
pub mod posts;
pub mod startup;
pub mod network;
pub mod people;
pub mod rate_limit;
pub mod ppsk;
pub mod ws;
