[package]
name = "openplay"
version = "0.1.0"
edition = "2021"
publish = false

[dependencies]
rand = "=0.9.5"
uuid = { version = "=1.29.0", features = ["v4"] }
chrono = "=0.4.45"
base64 = "=0.22.1"
serde = { version = "=1.0.229", features = ["derive"] }
serde_json = { version = "=1.0.154", features = ["preserve_order"] }
ed25519-dalek = "=2.2.0"
jsonwebtoken = "=9.3.1"
thiserror = "=2.0.21"
tracing = "=0.1.44"
tracing-subscriber = { version = "=0.3.23", features = ["env-filter"] }
tokio = { version = "=1.54.1", features = ["rt-multi-thread", "macros", "sync", "time", "net"] }
tokio-util = "=0.7.20"
dirs = "=6.0.0"
dashmap = "=6.2.1"
anyhow = "=1.0.104"
crossterm = "=0.28.1"
clap = { version = "=4.6.7", features = ["derive"] }
ratatui = "=0.29.0"
reqwest = { version = "=0.12.28", default-features = false, features = ["json", "stream"] }
reqwest-eventsource = "=0.6.0"
fluent = "=0.16.1"
fluent-langneg = "=0.13.1"
unic-langid = "=0.9.6"
sys-locale = "=0.3.2"
futures = "=0.3.34"
axum = "=0.8.9"
tower-http = { version = "=0.6.11", features = ["cors", "trace"] }
async-stream = "=0.3.6"
config = { version = "=0.14.1", default-features = false, features = ["toml"] }
