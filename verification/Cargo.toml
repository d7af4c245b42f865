[package]
name = "vrs"
version = "0.1.0"
edition = "2021"
publish = false

[dependencies]
axum = { version = "*", features = ["multipart"] }
fs2 = "*"
mime_guess = "*"
reqwest = { version = "*", default-features = false }
serde = { version = "*", features = ["derive"] }
thiserror = "*"
tokio = { version = "*", features = ["fs", "io-util", "macros", "net", "process", "rt-multi-thread", "sync", "time"] }
tokio-util = { version = "*", features = ["io"] }
tower-http = { version = "*", features = ["cors"] }
tracing = "*"
tracing-subscriber = { version = "*", features = ["env-filter"] }
url = "*"
uuid = { version = "*", features = ["v4"] }
