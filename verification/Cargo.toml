[package]
name = "solana-ui"
version = "0.1.0"
edition = "2021"
rust-version = "1.95"
publish = false

[dependencies]
solana-commitment-config = "*"
solana-pubkey = "*"
solana-rpc-client = { version = "=3.1.14", default-features = false }
solana-rpc-client-api = "=3.1.14"
solana-transaction-status-client-types = "=3.1.14"
tokio = { version = "*", features = ["rt-multi-thread", "sync"] }
