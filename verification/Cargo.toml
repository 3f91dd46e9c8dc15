[package]
name = "lenda_wallet_core"
version = "0.1.0"
edition = "2021"
publish = false

[dependencies]
bip39 = { version = "*", features = ["rand"] }
bitcoin = { version = "*", features = ["rand-std", "base64"] }
hex = "*"
serde = { version = "*", features = ["derive"] }
serde_json = "*"
url = "*"
