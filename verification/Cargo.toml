[package]
name = "bao"
version = "0.1.0"
edition = "2021"
publish = false

[dependencies]
base64 = "0.22"
crc32fast = "1"
uuid = { version = "1", features = ["v4"] }
serde = { version = "1", features = ["derive"] }
serde_json = "1"
thiserror = "2"
tokio = { version = "1", features = ["full"] }
portable-pty = "*"
vt100 = "*"
dirs = "*"
