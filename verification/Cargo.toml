[package]
name = "path8"
version = "0.1.0"
edition = "2021"
publish = false

[dependencies]
base64 = "=0.22.1"
chrono = { version = "=0.4.45", default-features = false, features = ["now"] }
hex = "=0.4.3"
hmac = "=0.12.1"
sha2 = "=0.10.9"
subtle = "=2.6.1"
serde = { version = "=1.0.229", features = ["derive"] }
serde_json = "=1.0.154"
redis = { version = "=0.27.6", features = ["tokio-comp"] }
solana-message = "3"
solana-instruction = "3"
solana-pubkey = "3"
utoipa = "=5.5.0"
