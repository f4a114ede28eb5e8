[package]
name = "ethereum_tx_sign"
version = "0.1.0"
edition = "2021"
publish = false

[dependencies]
rlp = "=0.6.1"
tiny-keccak = "=1.5.0"
secp256k1 = { version = "=0.33.1", features = ["recovery"] }
ethereum-types = "=0.16.0"
serde = { version = "=1.0.229", features = ["derive"] }
serde_json = "=1.0.154"
