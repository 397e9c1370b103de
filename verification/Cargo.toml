[package]
name = "mental_os"
version = "0.1.0"
edition = "2021"
publish = false

[dependencies]
regex = "=1.13.1"
directories = "=5.0.1"
serde = { version = "=1.0.229", features = ["derive"] }
serde_json = "=1.0.154"
toml = "=0.8.23"
chrono = { version = "=0.4.45", features = ["serde"] }
shell-words = "=1.1.1"
wait-timeout = "=0.2.1"
log = "=0.4.35"
thiserror = "=1.0.69"
reqwest = { version = "0.12", features = ["json"] }
tokio = { version = "1", features = ["rt-multi-thread", "macros", "time", "sync"] }
notify = "6"
env_logger = "0.11"
