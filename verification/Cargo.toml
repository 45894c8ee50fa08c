[package]
name = "storyforge"
version = "0.1.0"
edition = "2021"
publish = false

[dependencies]
rand = "=0.9.5"
rand_chacha = "=0.9.0"
serde = { version = "=1.0.229", features = ["derive"] }
toml = "=1.2.1"
ron = "=0.12.3"
walkdir = "=2.5.0"
thiserror = "=2.0.21"
ratatui = "=0.30.2"
crossterm = "=0.29.0"
color-eyre = "=0.6.5"
