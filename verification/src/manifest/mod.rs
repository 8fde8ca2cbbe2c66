pub mod decryption;
pub mod hexcodec;
pub mod parser;
pub mod store;
pub mod fetcher;
