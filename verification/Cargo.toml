[package]
name = "techne"
version = "0.1.0"
edition = "2021"
publish = false

[dependencies]
serde_json = "1"
tokio = { version = "1", features = ["rt", "rt-multi-thread", "macros", "io-util", "io-std", "net", "process", "sync", "time"] }
futures = "0.3"
bytes = "1"
hyper = { version = "1", features = ["server", "http1", "http2"] }
hyper-util = { version = "0.1", features = ["server", "server-auto", "http1", "http2", "tokio"] }
http-body-util = "0.1"
http = "1"
reqwest = { version = "0.12", default-features = false }
sipper = "*"
log = "0.4"
