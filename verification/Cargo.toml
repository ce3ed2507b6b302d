[package]
name = "loghew"
version = "0.1.0"
edition = "2021"
publish = false

[dependencies]
anyhow = "1"
chrono = "0.4"
clap = { version = "4", features = ["derive"] }
crossterm = "0.28"
dirs = "5"
memchr = "2"
memmap2 = "0.9"
notify-rust = "4"
ratatui = "0.29"
regex = "1"
serde = { version = "1", features = ["derive"] }
toml = "0.8"
unicode-width = "0.2"
