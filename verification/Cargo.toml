[package]
name = "hyper_h2"
version = "0.1.0"
edition = "2021"
publish = false

[dependencies]
bytes = "1"
h2 = "0.4"
http = "1"
http-body = "1"
pin-project-lite = "0.2"

[dev-dependencies]
tokio = { version = "1", features = ["rt", "io-util", "time"] }
