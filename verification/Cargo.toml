[package]
name = "ibr"
version = "0.1.0"
edition = "2021"
publish = false

[dependencies]
anyhow = "1"
reqwest = { version = "0.11", default-features = false }
seed = "*"
serde = { version = "1", features = ["derive"] }
serde_json = "1"
