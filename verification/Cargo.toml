[package]
name = "codex_usage"
version = "0.1.0"
edition = "2021"
publish = false

[dependencies]
unicode-width = "=0.2.0"
chrono = "=0.4.45"
serde = { version = "=1.0.229", features = ["derive"] }
serde_json = "=1.0.154"
schemars = "=0.8.22"
ts-rs = "=12.0.1"
ratatui = "=0.29.0"
tokio = { version = "=1.54.1", features = ["sync", "rt", "macros"] }
async-trait = "=0.1.92"
textwrap = "0.16"
