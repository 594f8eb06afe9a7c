[package]
name = "stellar_wallet_tools"
version = "0.1.0"
edition = "2021"
publish = false

[dependencies]
rand = "=0.8.8"
stellar_sdk = "=0.1.4"
soroban-sdk = "=29.0.1"
tokio = { version = "=1.54.1", features = ["macros", "rt-multi-thread"] }
anyhow = "=1.0.104"
sha2 = "=0.10.9"
bip39 = "2"
slip10_ed25519 = "0.1"

[dev-dependencies]
stellar-base = "=0.5.0"
base64 = "=0.22.1"
