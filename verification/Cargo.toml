[package]
name = "hifi_wifi"
version = "3.0.0"
edition = "2021"
publish = false

[dependencies]
anyhow = "=1.0.104"
chrono = { version = "=0.4.45", features = ["serde"] }
clap = { version = "=4.6.7", features = ["derive"] }
log = "=0.4.34"
nix = { version = "=0.29.0", features = ["user"] }
notify = "=6.1.1"
serde = { version = "=1.0.229", features = ["derive"] }
serde_json = "=1.0.154"
sha2 = "=0.10.9"
tempfile = "=3.27.0"
tokio = { version = "=1.54.1", features = ["rt-multi-thread", "macros", "time", "sync", "signal"] }
toml = "=0.8.23"
zbus = "=4.4.0"
