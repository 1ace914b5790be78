[package]
name = "session_auth"
version = "0.1.0"
edition = "2021"
publish = false

[dependencies]
bdk = { version = "=0.30.2", default-features = false, features = ["std"] }
chrono = "=0.4.45"
crypto-hash = "=0.3.4"
hex = "=0.4.3"
magic-crypt = "=6.0.0"
rand = "=0.8.8"
serde = { version = "=1.0.229", features = ["derive"] }
serde_json = "=1.0.154"
tokio = { version = "=1.54.1", features = ["full"] }
warp = "=0.3.7"
x25519-dalek = { version = "=2.0.1", features = ["static_secrets"] }
