[package]
name = "metastable"
version = "0.1.0"
edition = "2021"
publish = false

[dependencies]
serde = { version = "1", features = ["derive"] }
serde_json = "1"
hex = "0.4"
base64 = "0.22"
uuid = { version = "1", features = ["v4"] }
rand = "0.8"
blake3 = { version = "1", features = ["pure"] }
chrono = "0.4"
chrono-tz = "*"
axum = "0.8"
tokio = { version = "1", features = ["rt-multi-thread", "macros", "net"] }
