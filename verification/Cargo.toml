[package]
name = "compass"
version = "0.1.0"
edition = "2021"
publish = false

[dependencies]
alloy = { version = "1", default-features = false, features = ["std"] }
anyhow = "1"
async-trait = "0.1"
axum = { version = "0.8", default-features = false, features = ["json", "query", "tokio", "http1"] }
chrono = { version = "0.4", default-features = false, features = ["std", "clock", "serde"] }
futures = "0.3"
hex = "0.4"
serde = { version = "1", features = ["derive"] }
serde_json = "1"
thiserror = "2"
tokio = { version = "1", features = ["sync", "rt", "macros", "time"] }
tracing = "0.1"
