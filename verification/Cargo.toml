[package]
name = "pqkms"
version = "0.1.0"
edition = "2021"
publish = false

[dependencies]
chrono = "=0.4.45"
getrandom = "=0.3.4"
rand = "=0.10.3"
sha3 = "=0.10.9"
base64 = "=0.23.1"
pqcrypto-dilithium = "=0.5.0"
pqcrypto-traits = "=0.3.5"
serde = { version = "=1.0.229", features = ["derive"] }
subtle = "=2.6.1"
dotenv = "=0.15.0"
axum = "=0.8.9"
tokio = { version = "=1.53.2", features = ["rt-multi-thread", "macros", "net"] }
