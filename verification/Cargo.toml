[package]
name = "lynx"
version = "0.1.0"
edition = "2021"
publish = false

[dependencies]
sha2 = "0.10"
hex = "0.4"
aes-gcm = "0.10"
rand = "0.8"
subtle = "2"
base64ct = { version = "1", features = ["alloc"] }
ed25519-dalek = "2"
serde = { version = "1", features = ["derive"] }
serde_yaml = "0.9"
serde_json = "1"
indexmap = { version = "2", features = ["serde"] }
uuid = "1"
