[package]
name = "granite_cli"
version = "0.1.0"
edition = "2021"
publish = false

[dependencies]
anyhow = "1"
async-trait = "0.1"
rusqlite = { version = "*", features = ["bundled"] }
schemars = "1"
serde = { version = "1", features = ["derive"] }
serde_json = "1"
serde_valid = "*"
serde_yaml = "0.9"
tokio = { version = "1", features = ["rt", "sync", "macros"] }
