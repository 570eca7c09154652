[package]
name = "demido_studio"
version = "0.4.1"
edition = "2021"
publish = false

[dependencies]
regex = "=1.13.1"
serde = { version = "=1.0.229", features = ["derive"] }
serde_json = "=1.0.154"
sha2 = "=0.10.9"
base64 = "=0.22.1"
uuid = { version = "=1.29.0", features = ["v4"] }
getrandom = "=0.2.17"
dirs = "=5.0.1"
walkdir = "=2.5.0"
rusqlite = { version = "0.31", features = ["bundled"] }
