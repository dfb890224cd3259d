[package]
name = "google_signin"
version = "0.1.0"
edition = "2021"
publish = false

[dependencies]
jsonwebtoken = { version = "=11.1.0", features = ["use_pem", "rust_crypto"] }
serde_json = "=1.0.151"
serde = { version = "=1.0.229", features = ["derive"] }
hyper = { version = "=0.14.32", features = ["client", "http1", "http2", "tcp"] }
hyper-rustls = { version = "=0.24.2", features = ["native-tokio", "http1", "tls12"] }
tokio = { version = "=1.53.2", features = ["sync", "rt", "macros"] }

[dev-dependencies]
base64 = "=0.23.1"
