[package]
name = "heist_game"
version = "0.1.0"
edition = "2021"
publish = false

[dependencies]
rand = "0.8"
serde = { version = "1", features = ["derive"] }
log = "0.4"
anyhow = "1"
