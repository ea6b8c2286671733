[package]
name = "akari"
version = "0.1.0"
edition = "2021"
publish = false

[dependencies]
rand = "0.9"
ratatui = "*"
tachyonfx = "*"
serde = { version = "1", features = ["derive"] }
serde_json = "1"
