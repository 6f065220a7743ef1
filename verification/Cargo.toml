[package]
name = "dust_chat"
version = "0.1.0"
edition = "2021"
publish = false

[dependencies]
blake3 = "*"
serde_json = "*"
tokio = { version = "*", features = ["rt", "rt-multi-thread", "sync", "macros", "time"] }
