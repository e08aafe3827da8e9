[package]
name = "nft_arb"
version = "0.1.0"
edition = "2021"
publish = false

[dependencies]
ethers-core = "=2.0.14"
ethers-providers = { version = "=2.0.14", default-features = false, features = ["ws", "rustls"] }
ethers-signers = "=2.0.14"
ethers-contract = { version = "=2.0.14", default-features = false }
eyre = "0.6"
futures = "0.3"
gumdrop = "0.8"
parking_lot = "0.12"
reqwest = { version = "0.11", features = ["json"] }
rusqlite = "*"
serde = { version = "1", features = ["derive"] }
serde_json = "1"
tokio = { version = "1", features = ["full"] }
tokio-stream = "0.1"
tracing = "0.1"
tracing-subscriber = { version = "0.3", features = ["env-filter"] }
url = "2"
