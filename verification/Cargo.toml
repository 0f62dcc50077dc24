[package]
name = "breez_liquid_sdk"
version = "0.1.0"
edition = "2021"
publish = false

[dependencies]
lightning-invoice = "*"
bitcoin_hashes = "*"

[dev-dependencies]
bitcoin = "*"
secp256k1 = "*"
