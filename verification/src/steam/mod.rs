pub mod auth;
pub mod session;
pub mod web_api;
