[package]
name = "herdr_coordinator"
version = "0.3.0"
edition = "2021"
publish = false

[dependencies]
anyhow = "1"
chrono = "0.4"
fs2 = "0.4"
libc = "0.2"
ratatui = "0.29"
serde = { version = "1", features = ["derive"] }
serde_json = "1"
signal-hook = "0.3"
tempfile = "3"
uuid = { version = "1", features = ["v4"] }
wait-timeout = "0.2"
