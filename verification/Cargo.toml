[package]
name = "try_rs"
version = "0.1.0"
edition = "2021"
publish = false

[dependencies]
anyhow = "1"
chrono = "0.4"
clap = { version = "4", features = ["derive"] }
crossterm = "*"
dirs = "*"
fuzzy-matcher = "0.3"
ratatui = "*"
serde = { version = "1", features = ["derive"] }
toml = "*"
