[package]
name = "snapshot_sqlite"
version = "0.1.0"
edition = "2021"
publish = false

[dependencies]
borsh = "0.9.3"
indicatif = "0.17"
log = "0.4"
rusqlite = { version = "0.27", features = ["bundled"] }
serde_json = "1"
solana-sdk = "1.18"
spl-token = { version = "3.5", features = ["no-entrypoint"] }
