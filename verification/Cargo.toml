[package]
name = "mana_panel_backend"
version = "0.1.0"
edition = "2021"
publish = false

[dependencies]
axum = "0.8"
bollard = "0.18"
dotenvy = "0.15"
futures = "0.3"
serde = { version = "1", features = ["derive"] }
serde_json = "1"
tokio = { version = "1", features = ["full"] }
tokio-stream = "0.1"
tower-http = { version = "0.6", features = ["cors", "trace"] }
tracing = "0.1"
tracing-subscriber = { version = "0.3", features = ["env-filter"] }
