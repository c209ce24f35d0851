[package]
name = "nuzzle"
version = "0.1.0"
edition = "2021"
publish = false

[dependencies]
anyhow = "1"
bytes = "1"
chrono = "0.4"
crossterm = "0.28"
env_logger = "0.11"
feed-rs = "2"
futures = "0.3"
log = "0.4"
ratatui = "0.29"
regex = "1"
reqwest = { version = "0.12", default-features = false, features = ["json", "stream"] }
rusqlite = { version = "0.32", features = ["bundled"] }
serde = { version = "1", features = ["derive"] }
serde_json = "1"
shlex = "1"
tokio = { version = "1", features = ["full"] }
toml = "0.8"
tui-textarea = "0.7"
