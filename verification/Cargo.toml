[package]
name = "otel_logger"
version = "0.1.0"
edition = "2021"
publish = false

[dependencies]
anyhow = "=1.0.104"
axum = "=0.8.9"
bytes = "=1.12.1"
clap = { version = "=4.6.7", features = ["derive", "env"] }
http = "=1.5.0"
is-terminal = "=0.4.17"
logroller = "=0.1.12"
opentelemetry-proto = { version = "=0.33.1", features = ["gen-tonic", "trace", "metrics", "logs", "with-serde"] }
prost = "=0.14.4"
reqwest = { version = "=0.13.5", default-features = false, features = ["rustls"] }
serde = { version = "=1.0.229", features = ["derive"] }
serde_json = "=1.0.154"
thiserror = "=1.0.69"
time = { version = "=0.3.55", features = ["formatting"] }
tokio = { version = "=1.54.1", features = ["full"] }
tokio-util = "=0.7.20"
toml = "=1.1.8+spec-1.1.0"
tonic = { version = "=0.14.9", features = ["gzip", "transport", "tls-ring", "tls-webpki-roots"] }
tower-http = { version = "=0.6.11", features = ["decompression-gzip"] }
tracing = "=0.1.44"
tracing-subscriber = { version = "=0.3.23", features = ["env-filter"] }
