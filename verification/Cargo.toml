[package]
name = "ledger_control"
version = "0.1.0"
edition = "2021"
publish = false

[dependencies]
crossbeam-channel = "0.5"
jsonrpc-core = "18"
solana-pubkey = "~2.1"
solana-sdk = "~2.1"
spl-token = { version = "7", features = ["no-entrypoint"] }
