[package]
name = "griffin"
version = "0.1.0"
edition = "2021"
publish = false

[dependencies]
anyhow = "1"
arc-swap = "1"
async-stream = "0.3"
bytes = "1"
clap = { version = "4", features = ["derive"] }
futures-core = "0.3"
http = "1"
http-body = "1"
http-body-util = "0.1"
hyper = { version = "1", features = ["client", "server", "http1", "http2"] }
hyper-util = { version = "0.1", features = ["server-auto", "service", "tokio"] }
notify = "*"
once_cell = "1"
prometheus = "*"
scopeguard = "1"
serde = { version = "1", features = ["derive"] }
serde_yaml = "0.9"
tokio = { version = "1", features = ["full"] }
tower = { version = "0.5", features = ["util"] }
