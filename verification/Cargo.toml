[package]
name = "file_explorer"
version = "0.1.0"
edition = "2021"
publish = false

[dependencies]
serde = { version = "1", features = ["derive"] }
serde_json = "1"
base64 = "0.22"
blake3 = { version = "1", features = ["pure"] }
humansize = "2"
csv = "1"
chrono = "0.4"
