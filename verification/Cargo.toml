[package]
name = "taskboard"
version = "0.1.0"
edition = "2021"
publish = false

[dependencies]
ratatui = "0.28"
tui-input = "0.10"
serde = { version = "1", features = ["derive"] }
serde_yaml = "0.9"
toml = "0.8"
dirs = "5"
