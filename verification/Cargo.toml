[package]
name = "replicated_log"
version = "0.1.0"
edition = "2021"
publish = false

[dependencies]
chrono = "0.4"
serde = { version = "1", features = ["derive"] }
serde_json = "1"
tokio = { version = "1", features = ["macros", "rt-multi-thread", "net", "time"] }
axum = "0.7"
tower-http = { version = "0.5", features = ["cors"] }
reqwest = { version = "0.12", default-features = false, features = ["json"] }
bollard = "0.17"
redis = { version = "0.27", features = ["tokio-comp", "aio"] }
tracing = "0.1"
tracing-subscriber = "0.3"
