[package]
name = "beatmap_tui"
version = "0.1.0"
edition = "2021"
publish = false

[dependencies]
anyhow = "1"
clap = { version = "4", features = ["derive"] }
crossterm = "0.28"
current_locale = "0.1"
ratatui = { version = "0.29", features = ["widget-calendar"] }
reqwest = { version = "0.12", default-features = false, features = ["json", "rustls-tls"] }
rust-i18n = "3"
serde = { version = "1", features = ["derive"] }
serde_json = "1"
time = "0.3"
tokio = { version = "1", features = ["macros", "rt-multi-thread", "sync", "time"] }
tui-textarea = "0.7"
