[package]
name = "tuilib"
version = "0.1.0"
edition = "2021"
publish = false

[dependencies]
terminput = "*"
crossterm = "*"
serde = { version = "*", features = ["derive"] }
tracing = "*"
tracing-subscriber = { version = "*", features = ["env-filter"] }
tracing-appender = "*"
