[package]
name = "sochess"
version = "0.1.0"
edition = "2021"
publish = false

[dependencies]
bit-vec = "0.6"
axum = { version = "*", features = ["ws"] }
tokio = { version = "*", features = ["full"] }
serde = { version = "*", features = ["derive"] }
serde_json = "*"
mongodb = "*"
bson = "*"
chrono = "*"
futures = "*"
nanoid = "*"
tower = "*"
tower-http = { version = "*", features = ["cors", "trace"] }
tracing = "*"
tracing-subscriber = { version = "*", features = ["env-filter"] }
async-trait = "*"
