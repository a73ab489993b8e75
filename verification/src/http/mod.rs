pub mod json;
pub mod auth;
pub mod errors;
pub mod i18n;
pub mod models;
