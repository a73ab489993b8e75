pub mod lease;
pub mod lease_laws;
pub mod circuit;
pub mod message;
pub mod config;
