[package]
name = "oxipulse"
version = "0.3.8"
edition = "2021"
publish = false

[dependencies]
tokio = { version = "=1.54.1", features = ["rt-multi-thread", "macros", "net", "time", "sync", "signal"] }
tracing = "=0.1.44"
tracing-subscriber = "=0.3.23"
serde = { version = "=1.0.229", features = ["derive"] }
serde_json = "=1.0.154"
toml = "=0.8.23"
reqwest = { version = "=0.12.28", default-features = false, features = ["json", "rustls-tls"] }
sysinfo = "=0.33.1"
opentelemetry = { version = "=0.27.1", features = ["metrics"] }
opentelemetry_sdk = { version = "=0.27.1", features = ["metrics", "rt-tokio"] }
opentelemetry-otlp = { version = "=0.27.0", features = ["grpc-tonic", "metrics", "tls"] }
tonic = { version = "=0.12.3", features = ["tls", "tls-native-roots"] }
self_update = { version = "=0.44.0", default-features = false, features = ["reqwest", "rustls", "archive-tar", "compression-flate2"] }
