[package]
name = "vouch"
version = "0.1.0"
edition = "2021"
publish = false

[dependencies]
sha2 = "=0.10.9"
regex = "=1.13.1"
serde = { version = "=1.0.229", features = ["derive"] }
serde_json = "=1.0.154"
clap = { version = "=4.6.7", features = ["derive"] }
ratatui = { version = "=0.29.0", features = ["unstable-rendered-line-info"] }
crossterm = "=0.28.1"
tui-input = "=0.11.1"
which = "=7.0.3"
