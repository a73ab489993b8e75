//! Network access: networks, credentials, devices and their MAC addresses.
pub mod mac;
pub mod devices;
pub mod networks;
pub mod nms;
pub mod router;
