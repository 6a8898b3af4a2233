[package]
name = "peruse-tui"
version = "0.1.0"
edition = "2021"
publish = false

[dependencies]
unicode-width = "=0.2.0"
serde_json = { version = "=1.0.154", features = ["preserve_order"] }
ratatui = "=0.29.0"
clap = { version = "=4.6.7", features = ["derive"] }
anyhow = "=1.0.104"
