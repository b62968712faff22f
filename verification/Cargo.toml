[package]
name = "secmon"
version = "0.1.0"
edition = "2021"
publish = false

[dependencies]
anyhow = "1"
atty = "0.2"
chrono = { version = "0.4", features = ["serde"] }
crossterm = "*"
env_logger = "*"
glob = "0.3"
inotify = "*"
lazy_static = "1"
libc = "0.2"
libudev = "0.3"
log = "0.4"
procfs = "*"
ratatui = "*"
regex = "1"
serde = { version = "1", features = ["derive"] }
serde_json = "1"
thiserror = "*"
tokio = { version = "1", features = ["full"] }
tokio-stream = { version = "0.1", features = ["net"] }
toml = "*"
