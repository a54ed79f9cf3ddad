[package]
name = "mcp-wrapper-rs"
version = "0.5.1"
edition = "2021"
publish = false

[dependencies]
serde_json = "1"
tokio = { version = "1", features = ["full"] }
tracing = "0.1"
tracing-appender = "0.2"
tracing-subscriber = { version = "0.3", features = ["env-filter"] }
libc = "0.2"
fd-lock = "4"
process-wrap = { version = "9", default-features = false, features = ["tokio1", "process-group"] }
