[package]
name = "herdr"
version = "0.9.0"
edition = "2021"
publish = false

[dependencies]
crossterm = "0.28"
ratatui = { version = "0.29", default-features = false }
serde = { version = "1", features = ["derive"] }
toml = "0.8"
