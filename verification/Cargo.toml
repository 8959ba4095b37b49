[package]
name = "teatui"
version = "0.1.0"
edition = "2021"
publish = false

[dependencies]
color-eyre = "0.6"
crossterm = "0.28"
ratatui = { version = "0.29", features = ["unstable-widget-ref"] }
thiserror = "2"
tokio = { version = "1", features = ["rt", "time"] }
