[package]
name = "http_origin"
version = "0.1.0"
edition = "2021"
publish = false

[dependencies]
chrono = "0.4"
http-body-util = "0.1"
hyper = { version = "1", features = ["http1", "server"] }
hyper-util = { version = "0.1", features = ["tokio"] }
tokio = { version = "1", features = ["rt-multi-thread", "macros", "net", "fs", "sync"] }
