[package]
name = "eventsource_client"
version = "0.1.0"
edition = "2021"
publish = false

[dependencies]
futures = "0.3"
hyper = { version = "0.14", features = ["client", "http1", "tcp"] }
hyper-rustls = "0.24"
log = "0.4"
pin-project = "1"
tokio = { version = "1", features = ["time"] }
