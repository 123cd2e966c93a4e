[package]
name = "server"
version = "0.1.0"
edition = "2021"
publish = false

[dependencies]
axum = "=0.8.9"
base64 = "=0.22.1"
bs58 = "=0.5.1"
dotenvy = "0.15"
ed25519-dalek = "=2.2.0"
futures-util = "0.3"
rand = "=0.8.8"
reqwest = { version = "=0.12.28", default-features = false, features = ["json", "rustls-tls"] }
rust_socketio = { version = "=0.6.0", features = ["async"] }
serde = { version = "1", features = ["derive"] }
serde_json = "1"
socketioxide = { version = "0.18", features = ["state"] }
solana-pubkey = { version = "=2.4.0", features = ["curve25519"] }
thiserror = "2"
tokio = { version = "1", features = ["full"] }
tower = "0.5"
tower-http = { version = "=0.6.11", features = ["cors", "fs", "trace"] }
tracing = "0.1"
tracing-subscriber = { version = "0.3", features = ["env-filter"] }
