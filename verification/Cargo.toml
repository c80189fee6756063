[package]
name = "ananke"
version = "0.1.0"
edition = "2021"
publish = false

[dependencies]
axum = "0.7"
crossbeam-channel = "0.5"
flate2 = "1"
png = "0.17"
r2d2 = "0.8"
r2d2_sqlite = "0.24"
reqwest = { version = "0.11", default-features = false, features = ["blocking", "json", "rustls-tls"] }
rusqlite = { version = "0.31", features = ["bundled"] }
serde = { version = "1", features = ["derive"] }
serde_json = "1"
tokio = { version = "1", features = ["full"] }
tower-http = { version = "0.5", features = ["cors"] }
tracing = "0.1"
tracing-subscriber = "0.3"
vulkano = "0.34"
vulkano-shaders = "0.34"
zmq = "0.10"
