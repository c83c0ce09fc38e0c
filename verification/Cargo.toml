[package]
name = "wisdom_hub"
version = "0.1.0"
edition = "2021"
publish = false

[dependencies]
base64 = "0.22"
ed25519-dalek = "2"
sha2 = "0.10"
uuid = { version = "1", features = ["v4"] }
rand = "0.8"
