[package]
name = "nodeget"
version = "0.1.0"
edition = "2021"
publish = false

[dependencies]
uuid = { version = "=1.29.0", features = ["v4"] }
rand = "=0.9.5"
base64 = "=0.22.1"
cron = "=0.15.0"
chrono = "=0.4.45"
serde = { version = "=1.0.229", features = ["derive"] }
serde_json = "=1.0.154"
tokio = { version = "=1.54.1", features = ["rt-multi-thread", "macros", "sync", "time", "net"] }
anyhow = "=1.0.104"
toml = "*"
tokio-tungstenite = "*"
futures = "0.3"
