[package]
name = "genshin_dl"
version = "0.2.0"
edition = "2021"
publish = false

[dependencies]
anyhow = "1"
clap = { version = "4", features = ["derive"] }
crossterm = "*"
indicatif = "*"
ratatui = "*"
tracing = "0.1"
tracing-subscriber = { version = "0.3", features = ["env-filter"] }
