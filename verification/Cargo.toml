[package]
name = "uair"
version = "0.1.0"
edition = "2021"
publish = false

[dependencies]
argh = "0.1"
async-io = "2"
async-net = "2"
bincode = "1"
futures-lite = "2"
humantime = "2"
humantime-serde = "1"
log = "0.4"
serde = { version = "1", features = ["derive"] }
signal-hook = "0.3"
signal-hook-async-std = "0.2"
simplelog = "0.12"
thiserror = "1"
toml = "0.8"
