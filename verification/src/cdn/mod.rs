pub mod client;
pub mod download;
pub mod server;
