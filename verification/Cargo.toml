[package]
name = "snaptui"
version = "0.1.0"
edition = "2021"
publish = false

[dependencies]
anyhow = "*"
ratatui = "*"
serde = { version = "*", features = ["derive"] }
serde_json = "*"
tachyonfx = "*"
