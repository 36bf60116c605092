[package]
name = "navop_core"
version = "0.1.0"
edition = "2021"
publish = false

[dependencies]
russh = "*"
hmac = "0.12"
sha1 = "0.10"
chrono = "0.4"
dirs = "*"
serde = { version = "1", features = ["derive"] }
serde_json = "1"
tempfile = "3"
base64 = "0.22"
tracing = "0.1"
anyhow = "1"
