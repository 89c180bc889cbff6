[package]
name = "mind"
version = "0.7.4"
edition = "2021"
publish = false

[dependencies]
anyhow = "1"
atty = "0.2"
chrono = { version = "=0.4.45", features = ["serde"] }
chrono-humanize = "0.2"
crossterm = "0.22"
dirs = "*"
serde = { version = "1", features = ["derive"] }
serde_yaml = "0.9"
termion = "1.5"
toml = "*"
tui = "0.17"
tui-input = "0.1.2"
uuid = { version = "=1.29.0", features = ["v4", "serde"] }
