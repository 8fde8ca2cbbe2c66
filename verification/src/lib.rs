pub mod cdn;
pub mod config;
pub mod downloader;
pub mod gui;
pub mod manifest;
pub mod paths;
pub mod steam;
pub mod text;
