[package]
name = "airtouch5-webui"
version = "0.1.0"
edition = "2021"
publish = false

[dependencies]
airtouch5 = { version = "0.2", features = ["control"] }
askama = "0.12"
axum = "0.8"
chrono = "0.4"
clap = { version = "4", features = ["derive"] }
futures-util = "0.3"
reqwest = { version = "0.12", default-features = false, features = ["stream"] }
tokio = { version = "1", features = ["rt-multi-thread", "macros", "signal", "time", "sync"] }
tracing = "0.1"
