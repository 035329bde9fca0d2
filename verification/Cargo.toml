[package]
name = "tmj"
version = "0.1.0"
edition = "2021"
publish = false

[dependencies]
regex = "*"
ratatui = { version = "*", default-features = false }
serde = { version = "*", features = ["derive"] }
toml = "*"
anyhow = "*"
