[package]
name = "tower_otel"
version = "0.1.0"
edition = "2021"
publish = false

[dependencies]
axum = "0.8"
http = "1"
hyper-util = { version = "0.1", features = ["client-legacy"] }
opentelemetry = "0.30"
opentelemetry-http = "0.30"
pin-project = "1"
pin-project-lite = "0.2"
tonic = "0.13"
tower = "0.5"
tracing = "0.1"
tracing-opentelemetry = "0.31"
