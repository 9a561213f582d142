[package]
name = "remote_wallet"
version = "0.1.0"
edition = "2021"
publish = false

[dependencies]
base64 = "=0.21.7"
dialoguer = "=0.11.0"
hex = "=0.4.3"
hidapi = { version = "=2.6.7", default-features = false, features = ["linux-native-basic-udev"] }
num-traits = "=0.2.19"
parking_lot = "=0.12.5"
semver = "=1.0.28"
serde = { version = "=1.0.229", features = ["derive"] }
serde_cbor = "=0.11.2"
serde_json = "=1.0.154"
solana-sdk = "=1.18.26"
thiserror = "=1.0.69"
ur-parse-lib = { version = "=1.0.9", features = ["std"] }
ur-registry = { version = "=1.0.9", features = ["std"] }
