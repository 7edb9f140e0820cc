[package]
name = "dss"
version = "0.1.0"
edition = "2021"
publish = false

[dependencies]
serde_json = "1"
serde = { version = "1", features = ["derive"] }
serde_repr = "0.1"
reqwest = { version = "*", features = ["blocking", "json"] }
