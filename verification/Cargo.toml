[package]
name = "organelle"
version = "0.1.0"
edition = "2021"
publish = false

[dependencies]
uuid = { version = "1", features = ["v4", "serde"] }
futures = "0.3"
tokio = { version = "1", features = ["rt", "net"] }
hyper = { version = "0.14", features = ["server", "http1", "tcp"] }
serde = { version = "1", features = ["derive"] }
serde_json = "1"
open = "5"
