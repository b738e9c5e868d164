[package]
name = "tabsel"
version = "0.1.0"
edition = "2021"
publish = false

[dependencies]
anyhow = "1"
clap = { version = "4", features = ["derive"] }
csv = "1"
dirs = "*"
iced = { version = "0.12", default-features = false }
iced_core = "0.12"
iced_style = "0.12"
once_cell = "1"
serde_json = { version = "1", features = ["preserve_order"] }
tracing = "0.1"
tracing-subscriber = { version = "0.3", features = ["env-filter"] }
