[package]
name = "evm_account_storage"
version = "0.1.0"
edition = "2021"
publish = false

[dependencies]
bs58 = "0.5"
hex = "0.4"
primitive-types = "0.12"
evm = "0.41"
serde = { version = "1", features = ["derive"] }
serde_json = "1"
solana-program = "*"
solana-sdk = "*"
