[package]
name = "mti"
version = "0.1.0"
edition = "2021"
publish = false

[dependencies]
uuid = { version = "=1.27.0", features = ["v3", "v4", "v5", "v6", "v7"] }
serde = { version = "1", features = ["derive"] }
serde_json = "1"
