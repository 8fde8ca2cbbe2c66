pub mod credentials;
pub mod settings;
