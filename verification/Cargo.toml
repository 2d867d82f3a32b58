[package]
name = "image_library_client"
version = "0.1.0"
edition = "2021"
publish = false

[dependencies]
hyper = { version = "0.14", features = ["client", "http1", "runtime", "tcp"] }
tokio = { version = "1", features = ["rt"] }

[dev-dependencies]
serde_json = "1"
