[package]
name = "ors_proxy"
version = "0.1.0"
edition = "2021"
publish = false

[dependencies]
serde = { version = "*", features = ["derive"] }
serde_json = "*"
uuid = { version = "*", features = ["v4"] }
axum = "*"
tokio = { version = "*", features = ["rt-multi-thread", "macros", "net", "time"] }
reqwest = { version = "*", default-features = false, features = ["json", "stream"] }
sqlx = { version = "*", default-features = false, features = ["runtime-tokio", "sqlite"] }
futures = "*"
tokio-stream = "*"
async-stream = "*"
bytes = "*"
tracing = "*"
tracing-subscriber = { version = "*", features = ["env-filter", "fmt"] }
