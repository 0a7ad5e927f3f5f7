[package]
name = "dack"
version = "0.1.0"
edition = "2021"
publish = false

[dependencies]
anyhow = "1"
async-trait = "0.1"
axum = { version = "=0.7.9", default-features = false, features = ["http1", "tokio"] }
base64 = "=0.22.1"
bs58 = "=0.5.1"
chrono = "=0.4.45"
clap = { version = "4", features = ["derive"] }
cron = "=0.12.1"
ed25519-dalek = "=2.2.0"
notify = "6"
rusqlite = { version = "0.31", features = ["bundled"] }
serde = { version = "1", features = ["derive"] }
serde_json = "=1.0.154"
serde_yaml = "=0.9.34"
sha2 = "=0.10.9"
thiserror = "1"
tokio = { version = "1", features = ["full"] }
