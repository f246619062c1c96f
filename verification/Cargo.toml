[package]
name = "aether"
version = "0.1.0"
edition = "2021"
publish = false

[dependencies]
regex = "=1.13.1"
ipnet = "=2.12.2"
log = "=0.4.35"
parking_lot = "=0.12.5"
serde = { version = "=1.0.229", features = ["derive"] }
serde_json = "=1.0.154"
toml = "=0.8.23"
tokio = { version = "=1.54.1", features = ["sync", "net", "time", "rt", "rt-multi-thread", "macros"] }
windows-sys = { version = "0.59", features = ["Win32_Foundation", "Win32_Networking_WinInet"] }
