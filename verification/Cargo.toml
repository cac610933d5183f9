[package]
name = "dltui"
version = "0.1.0"
edition = "2021"
publish = false

[dependencies]
regex = "*"
memmap2 = "*"
anyhow = "*"
chrono = "*"
clap = { version = "*", features = ["derive"] }
crossterm = "*"
dirs = "*"
ratatui = "*"
serde = { version = "*", features = ["derive"] }
thiserror = "*"
toml = "*"
