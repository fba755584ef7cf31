[package]
name = "prgit"
version = "0.1.0"
edition = "2021"
publish = false

[dependencies]
anyhow = "1"
axum = "0.8"
base64 = "0.22"
chrono = "0.4"
clap = { version = "4", features = ["derive"] }
env_logger = "0.11"
git2 = { version = "0.20", default-features = false }
gix-packetline = "*"
httparse = "1"
ignore = "0.4"
keyring = "3"
libc = "0.2"
log = "0.4"
rusqlite = { version = "*", features = ["bundled"] }
serde = { version = "1", features = ["derive"] }
serde_json = "1"
serde_yaml = "0.9"
tempfile = "3"
thiserror = "2"
tokio = { version = "1", features = ["full"] }
