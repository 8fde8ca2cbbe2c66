[package]
name = "depot_downloader"
version = "0.1.0"
edition = "2021"
publish = false

[dependencies]
aes = "=0.8.4"
ctr = "=0.9.2"
hex = "=0.4.3"
rand = "=0.8.8"
dirs = "=5.0.1"
chrono = "=0.4.45"
anyhow = "=1.0.104"
serde = { version = "=1.0.229", features = ["derive"] }
serde_json = "=1.0.154"
tokio = { version = "=1.54.1", features = ["rt-multi-thread", "macros", "fs", "sync", "time", "io-util"] }
reqwest = { version = "=0.12.28", default-features = false, features = ["stream"] }
futures-util = "=0.3.34"
tracing = "=0.1.44"
open = "=5.4.5"
