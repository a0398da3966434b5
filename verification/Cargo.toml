[package]
name = "just_an_email"
version = "0.1.0"
edition = "2021"
publish = false

[dependencies]
uuid = { version = "*", features = ["v4"] }
rand = "*"
chrono = "*"
axum = { version = "*", features = ["ws", "multipart"] }
tokio = { version = "*", features = ["rt-multi-thread", "macros", "sync", "time", "fs", "net"] }
serde = { version = "*", features = ["derive"] }
serde_json = "*"
futures = "*"
dashmap = "*"
