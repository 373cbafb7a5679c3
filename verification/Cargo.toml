[package]
name = "lila_http"
version = "0.1.0"
edition = "2021"
publish = false

[dependencies]
axum = "*"
clap = { version = "4", features = ["derive", "env"] }
log = "0.4"
pretty_env_logger = "*"
serde = { version = "1", features = ["derive"] }
serde_json = "1"
serde_with = "*"
tokio = { version = "1", features = ["full"] }
tower-http = { version = "*", features = ["set-header"] }
