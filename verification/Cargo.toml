[package]
name = "foxglove_webtransport"
version = "0.1.0"
edition = "2021"
publish = false

[dependencies]
bimap = "=0.6.3"
bytes = "=1.12.1"
flume = { version = "=0.11.1", features = ["async"] }
parking_lot = "=0.12.5"
regex = "=1.13.1"
serde_json = "=1.0.154"
tokio = { version = "=1.54.1", features = ["rt-multi-thread", "sync", "macros", "net", "time"] }
tokio-util = "=0.7.20"
tracing = "=0.1.44"
wtransport = "=0.7.2"
zstd-safe = { version = "=7.4.0", features = ["std"] }
