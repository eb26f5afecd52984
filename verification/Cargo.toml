[package]
name = "scuffle_video"
version = "0.1.0"
edition = "2021"
publish = false

[dependencies]
byteorder = "1"
ulid = "1"
url = "2"
serde = { version = "1", features = ["derive"] }
serde_json = "1"
