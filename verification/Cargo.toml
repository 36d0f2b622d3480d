[package]
name = "blink"
version = "0.1.0"
edition = "2021"
publish = false

[dependencies]
anyhow = "1"
axum = { version = "0.8", features = ["ws", "multipart"] }
chrono = "0.4"
clap = { version = "4", features = ["derive", "env"] }
dirs = "5"
futures = "0.3"
libc = "0.2"
nix = { version = "0.29", features = ["sched", "socket", "process"] }
serde = { version = "1", features = ["derive"] }
serde_json = "1"
tempfile = "3"
tokio = { version = "1", features = ["full"] }
tower-http = { version = "0.6", features = ["cors", "limit", "fs", "trace"] }
tracing = "0.1"
tracing-subscriber = { version = "0.3", features = ["env-filter"] }
uuid = { version = "1", features = ["v4"] }
