pub mod app;
pub mod components;
pub mod dialogs;
