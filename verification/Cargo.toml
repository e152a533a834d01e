[package]
name = "spine"
version = "0.1.0"
edition = "2021"
publish = false

[dependencies]
serde = { version = "1", features = ["derive"] }
bincode = "1"
tokio = { version = "1", features = ["sync", "rt-multi-thread", "macros"] }
async-trait = "0.1"
