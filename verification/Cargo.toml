[package]
name = "freactor"
version = "0.1.0"
edition = "2021"
publish = false

[dependencies]
serde = { version = "1", features = ["derive"] }
serde_json = "1"
tokio = { version = "1", features = ["rt-multi-thread", "time", "net", "sync"] }
tracing = "0.1"
tracing-subscriber = "0.3"
axum = "0.7"
reqwest = { version = "0.12", default-features = false, features = ["json"] }
