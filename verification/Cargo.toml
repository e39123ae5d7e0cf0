[package]
name = "etron"
version = "0.1.0"
edition = "2021"
publish = false

[dependencies]
uuid = { version = "*", features = ["v4"] }
chrono = "*"
tokio = { version = "*", features = ["rt-multi-thread", "macros", "sync", "net", "time"] }
axum = { version = "*", features = ["ws"] }
futures = "*"
serde = { version = "*", features = ["derive"] }
serde_json = "*"
tracing = "*"
tracing-subscriber = { version = "*", features = ["env-filter"] }
pico-args = "*"
anyhow = "*"
