[package]
name = "stratum_counter"
version = "0.1.0"
edition = "2021"
publish = false

[dependencies]
bollard = "0.18"
futures = "0.3"
opentelemetry = { version = "0.28", features = ["metrics"] }
opentelemetry-otlp = { version = "0.28", features = ["grpc-tonic", "metrics"] }
opentelemetry_sdk = { version = "0.28", features = ["metrics", "rt-tokio"] }
serde = { version = "1", features = ["derive"] }
tokio = { version = "1", features = ["full"] }
