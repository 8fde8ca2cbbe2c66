pub mod progress;
pub mod manager;
pub mod depot;
