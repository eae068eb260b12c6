[package]
name = "blockchain_data"
version = "0.1.0"
edition = "2021"
publish = false

[dependencies]
url = "2"
alloy = { version = "0.3", default-features = false, features = ["std", "reqwest", "providers", "provider-http", "rpc-types-eth"] }
tokio = { version = "1", features = ["rt-multi-thread", "macros", "sync", "time"] }
tokio-stream = "0.1"
futures = "0.3"
async-stream = "0.3"
anyhow = "1"
derive_builder = "0.20"
