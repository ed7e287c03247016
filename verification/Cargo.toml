[package]
name = "smartzone_exporter"
version = "0.1.0"
edition = "2021"
publish = false

[dependencies]
serde_json = "*"
serde = "*"
reqwest = { version = "*", default-features = false, features = ["cookies"] }
rocket = "*"
tokio = "*"
dotenvy = "*"
prometheus = "*"
opentelemetry = "*"
opentelemetry_sdk = "*"
opentelemetry-prometheus = "*"
