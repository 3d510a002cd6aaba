[package]
name = "songdex"
version = "0.1.0"
edition = "2021"
publish = false

[dependencies]
mp3-metadata = "*"
serde = { version = "*", features = ["derive"] }
serde_json = "*"
