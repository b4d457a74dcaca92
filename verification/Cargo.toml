[package]
name = "melange"
version = "0.1.0"
edition = "2021"
publish = false

[dependencies]
anyhow = "1"
clap = { version = "4", features = ["derive"] }
crossterm = "0.28"
dirs = "5"
flate2 = "1"
ratatui = "0.29"
self-replace = "1"
serde = { version = "1", features = ["derive"] }
serde_json = "1"
sysinfo = "0.33"
tar = "0.4"
toml = "0.8"
ureq = "3"
