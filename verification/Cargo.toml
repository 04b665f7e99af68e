[package]
name = "client_test_server"
version = "0.1.0"
edition = "2021"
publish = false

[dependencies]
anyhow = "1"
bytes = "1"
env_logger = "*"
futures-util = "0.3"
http-body-util = "0.1"
hyper = { version = "1", features = ["http1", "server", "client"] }
log = "0.4"
tokio = { version = "1", features = ["rt-multi-thread", "macros", "net", "fs", "io-util"] }
tokio-util = { version = "0.7", features = ["io"] }
