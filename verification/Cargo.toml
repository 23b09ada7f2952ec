[package]
name = "rmcs_actions_service"
version = "0.1.0"
edition = "2021"
publish = false

[dependencies]
anyhow = "*"
chrono = "*"
dashmap = "*"
dotenvy = "*"
futures-util = "*"
log = "*"
log4rs = "*"
poem = { version = "*", features = ["websocket"] }
poem-openapi = "*"
serde = { version = "*", features = ["derive"] }
serde_json = "*"
serde_with = "*"
sqlx = { version = "*", features = ["sqlite", "runtime-tokio", "chrono"] }
tokio = { version = "*", features = ["full"] }
uuid = { version = "*", features = ["v4"] }
