[package]
name = "cyberorganism"
version = "0.1.0"
edition = "2021"
publish = false

[dependencies]
chrono = { version = "=0.4.45", features = ["serde"] }
fuzzy-matcher = "=0.3.7"
tui-input = "=0.8.0"
serde = { version = "=1.0.229", features = ["derive"] }
serde_json = "=1.0.154"
reqwest = { version = "=0.12.28", default-features = false, features = ["blocking", "json"] }
ratatui = "=0.26.3"
crossterm = "=0.27.0"
directories = "=5.0.1"
config = { version = "=0.14.1", default-features = false, features = ["toml"] }
lazy_static = "=1.5.1"
axum = { version = "0.7", default-features = false, features = ["ws", "tokio", "http1"] }
tokio = { version = "1", features = ["rt-multi-thread", "macros", "net", "sync"] }
tower-http = { version = "0.5", features = ["cors"] }
futures = "0.3"
portable-pty = "0.8"
env_logger = { version = "0.11", default-features = false }
log = "0.4"
