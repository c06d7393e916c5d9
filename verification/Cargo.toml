[package]
name = "tango-signaling-server"
version = "0.1.0"
edition = "2021"
publish = false

[dependencies]
axum = { version = "=0.7.9", features = ["ws"] }
futures = "=0.3.34"
prost = "=0.13.5"
reqwest = { version = "=0.12.28", default-features = false, features = ["json", "rustls-tls"] }
serde = { version = "=1.0.229", features = ["derive"] }
tokio = { version = "=1.54.1", features = ["rt", "sync", "time"] }
tracing = "=0.1.44"
uuid = { version = "=1.29.0", features = ["v4"] }
