[package]
name = "cipher_core"
version = "0.1.0"
edition = "2021"
publish = false

[dependencies]
ed25519-dalek = { version = "2", features = ["pkcs8"] }
x25519-dalek = { version = "2", features = ["static_secrets"] }
chacha20poly1305 = "0.10"
argon2 = "0.5"
lz4_flex = "0.11"
rand_chacha = "0.3"
sha3 = "0.10"
axum = "0.7"
tokio = { version = "1", features = ["rt-multi-thread", "macros", "net"] }
serde = { version = "1", features = ["derive"] }
base64 = "0.22"
tracing-subscriber = "0.3"
