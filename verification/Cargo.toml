[package]
name = "accensa_contracts"
version = "0.1.0"
edition = "2021"
publish = false

[dependencies]
ed25519-dalek = "2"
soroban-sdk = "*"

[dev-dependencies]
soroban-sdk = { version = "*", features = ["testutils"] }
