[package]
name = "reversify"
version = "0.1.0"
edition = "2021"
publish = false

[dependencies]
base64 = "*"
dotenv = "*"
isahc = "*"
serde = { version = "*", features = ["derive"] }
serde_json = "*"
tokio = { version = "*", features = ["rt-multi-thread", "macros", "time"] }
tokio-cron-scheduler = "*"
tracing = "*"
tracing-subscriber = "*"
