[package]
name = "sunspec_rs"
version = "0.1.0"
edition = "2021"
publish = false

[dependencies]
anyhow = "*"
async-trait = "*"
clap = { version = "*", features = ["derive"] }
serde = { version = "*", features = ["derive"] }
serde_json = "*"
serde-xml-rs = "*"
thiserror = "*"
tokio = { version = "*", features = ["net", "time", "sync", "rt-multi-thread", "macros", "io-util"] }
tokio-modbus = "*"
tokio-retry = "*"
tracing = "*"
tracing-subscriber = "*"
