[package]
name = "wakey"
version = "0.1.0"
edition = "2021"
publish = false

[dependencies]
regex = "=1.13.1"
petgraph = "=0.8.3"
serde = { version = "=1.0.229", features = ["derive"] }
serde_json = "=1.0.154"
serde_yaml = "=0.9.34"
tokio = { version = "=1.54.1", features = ["full"] }
chrono = "=0.4.45"
uuid = { version = "=1.29.0", features = ["v4"] }
rusqlite = { version = "=0.41.1", features = ["bundled"] }
reqwest = { version = "=0.12.28", default-features = false, features = ["json", "rustls-tls"] }
tracing = "=0.1.44"
tracing-subscriber = "=0.3.23"
anyhow = "=1.0.104"
thiserror = "=2.0.21"
async-trait = "=0.1.92"
dotenvy = "=0.15.7"
toml = "=1.1.8"
walkdir = "=2.5.0"
notify = "=8.2.1"
lru = "=0.19.0"
futures-util = "=0.3.34"
tokio-tungstenite = "=0.30.0"
ratatui = "0.29"
crossterm = "0.28"
