[package]
name = "airdrop"
version = "0.1.0"
edition = "2021"
publish = false

[dependencies]
bs58 = "0.4"
clap = { version = "3", features = ["derive"] }
mpl-token-metadata = "1.2"
serde = { version = "1", features = ["derive"] }
serde_json = "1"
solana-sdk = "~1.10"
spl-associated-token-account = "1.0"
spl-token = "3.3"
tokio = { version = "1", features = ["full"] }
