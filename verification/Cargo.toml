[package]
name = "evm_sim"
version = "0.1.0"
edition = "2021"
publish = false

[dependencies]
sha3 = "0.10"
tokio = { version = "1", features = ["rt", "sync"] }
