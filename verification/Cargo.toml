[package]
name = "sftp_gateway"
version = "0.1.0"
edition = "2021"
publish = false

[dependencies]
rocket = { version = "0.5", default-features = false }
serde = { version = "1", features = ["derive"] }
serde_json = "1"
ssh2 = "0.9"
