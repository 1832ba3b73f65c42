[package]
name = "playout"
version = "0.19.0"
edition = "2021"
publish = false

[dependencies]
anyhow = "1"
async-nats = "=0.51.0"
axum = "=0.8.9"
futures = "0.3"
gstreamer = "=0.25.4"
gstreamer-pbutils = "=0.25.4"
# Pulled in by gstreamer; later versions need a newer compiler.
kstring = "=2.0.2"
opentelemetry = "=0.33.1"
opentelemetry-otlp = { version = "=0.33.1", default-features = false, features = ["http-proto", "metrics", "reqwest-client", "reqwest-rustls"] }
opentelemetry_sdk = "=0.33.1"
sentry = { version = "=0.49.5", default-features = false, features = ["backtrace", "contexts", "panic", "reqwest", "rustls"] }
sentry-tracing = "=0.49.5"
serde = { version = "1", features = ["derive"] }
serde_json = "=1.0.154"
tokio = { version = "1", features = ["full"] }
tracing = "0.1"
tracing-subscriber = { version = "0.3", features = ["env-filter"] }
