[package]
name = "kobuleti"
version = "0.1.0"
edition = "2021"
publish = false

[dependencies]
rand = "=0.8.8"
arrayvec = "0.7"
serde = { version = "=1.0.229", features = ["derive"] }
serde_json = "=1.0.154"
tokio = { version = "=1.54.1", features = ["full"] }
tokio-util = { version = "=0.7.20", features = ["codec"] }
futures = "=0.3.34"
anyhow = "=1.0.104"
thiserror = "=1.0.69"
clap = { version = "=4.6.7", features = ["cargo"] }
tracing = "=0.1.44"
tracing-subscriber = { version = "=0.3.23", features = ["env-filter"] }
tracing-appender = "=0.2.5"
crossterm = { version = "=0.28.1", features = ["event-stream"] }
ratatui = "=0.29.0"
tui-input = "=0.14.0"
