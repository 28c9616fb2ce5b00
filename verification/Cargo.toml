[package]
name = "ffp"
version = "0.1.0"
edition = "2021"
publish = false

[dependencies]
fuzzy-matcher = "0.3"
ratatui = "0.26"
crossterm = { version = "0.27", features = ["event-stream"] }
tokio = { version = "1", features = ["fs", "rt-multi-thread", "macros", "io-util"] }
flume = "0.11"
futures-util = "0.3"
async-walkdir = "*"
syntect = { version = "5", default-features = false, features = ["default-fancy"] }
chrono = "0.4"
human_bytes = "*"
anyhow = "1"
tracing = "0.1"
tracing-appender = "0.2"
tracing-subscriber = "0.3"
unicode-segmentation = "1"
file-format = "*"
