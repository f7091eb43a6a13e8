[package]
name = "hijuepapus-bot"
version = "0.1.0"
edition = "2021"
publish = false

[dependencies]
anyhow = "1"
bollard = "0.21.0"
futures-util = "0.3"
mc-query = "2.0.0"
poise = "0.6.2"
regex = "1"
tokio = { version = "1", features = ["macros", "rt-multi-thread", "signal", "sync", "time"] }
tracing = "0.1"
tracing-subscriber = { version = "0.3", features = ["env-filter"] }
