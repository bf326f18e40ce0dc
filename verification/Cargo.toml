[package]
name = "ts3_ai_bot"
version = "0.1.0"
edition = "2021"
publish = false

[dependencies]
whatlang = "*"
urlencoding = "*"
anyhow = "*"
serde = { version = "1", features = ["derive"] }
serde_json = "1"
toml = "*"
chrono = "*"
tracing = "*"
tracing-subscriber = { version = "*", features = ["env-filter"] }
base64 = "*"
clap = { version = "4", features = ["derive"] }
tokio = { version = "1", features = ["rt-multi-thread", "macros", "sync", "time", "process", "io-util", "signal"] }
reqwest = { version = "*", default-features = false, features = ["json", "rustls-tls"] }
futures = "*"
dashmap = "*"
parking_lot = "*"
time = "*"
tsclientlib = "*"
tsproto-packets = "*"
tsproto-types = "*"
audiopus = "*"
