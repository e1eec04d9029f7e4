[package]
name = "rzem_ai_inference"
version = "0.1.0"
edition = "2021"
publish = false

[dependencies]
anyhow = "=1.0.104"
base64 = "0.22"
blake2 = "=0.10.6"
blake3 = "=1.8.7"
chrono = { version = "=0.4.45", default-features = false, features = ["alloc"] }
csv = "=1.4.0"
image = { version = "0.25", default-features = false, features = ["jpeg"] }
minijinja = "=2.24.0"
png = "=0.17.16"
rusqlite = { version = "=0.41.1", features = ["bundled"] }
serde = { version = "=1.0.229", features = ["derive"] }
serde_json = "=1.0.154"
uuid = { version = "=1.29.1", features = ["v4"] }
