[package]
name = "zeroclaw"
version = "0.1.0"
edition = "2021"
publish = false

[dependencies]
serde = { version = "1", features = ["derive"] }
serde_json = "1"
tokio = { version = "1", features = ["rt-multi-thread", "macros", "io-util", "io-std", "net", "process", "time", "sync", "fs"] }
axum = { version = "0.8", features = ["ws"] }
reqwest = { version = "0.12", default-features = false, features = ["json"] }
futures-util = { version = "0.3", features = ["sink"] }
uuid = { version = "1", features = ["v4"] }
chrono = "0.4"
directories = "6"
anyhow = "1"
tracing = "0.1"
