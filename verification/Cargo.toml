[package]
name = "manga_reader"
version = "0.1.0"
edition = "2021"
publish = false

[dependencies]
anyhow = "1"
chrono = "0.4"
clap = { version = "4", features = ["derive"] }
crossbeam-channel = "0.5"
crossterm = "0.29"
dirs = "5"
env_logger = "0.11"
hex = "=0.4.3"
image = { version = "=0.25.10", default-features = false, features = ["jpeg", "png"] }
log = "0.4"
ratatui = "=0.30.2"
ratatui-image = "=1.0.5"
regex = "=1.13.1"
rusqlite = { version = "0.31", features = ["bundled"] }
serde = { version = "1", features = ["derive"] }
serde_json = "1"
shellexpand = "3"
walkdir = "2"
