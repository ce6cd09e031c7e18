[package]
name = "titan_engine"
version = "0.1.0"
edition = "2021"
publish = false

[dependencies]
blake3 = "1"
regex = "1"
sqlparser = "*"
lasso = { version = "0.7", features = ["multi-threaded"] }
chrono = "0.4"
serde = { version = "1", features = ["derive"] }
serde_json = "1"
serde_yml = "*"
thiserror = "*"
clap = { version = "4", features = ["derive"] }
tokio = { version = "1", features = ["rt-multi-thread", "macros", "sync", "signal", "time"] }
tokio-util = "0.7"
tracing = "0.1"
uuid = { version = "1", features = ["v4"] }
futures = "0.3"
minijinja = "2"
prometheus = "0.13"
jsonrpc-core = "18"
async-trait = "0.1"
url = "2"
anyhow = "1"
hyper = { version = "0.14", features = ["server", "http1", "tcp"] }
