[package]
name = "codex_router"
version = "0.1.0"
edition = "2021"
publish = false

[dependencies]
anyhow = "*"
axum = "*"
base64 = "*"
chrono = "*"
rand = "*"
reqwest = { version = "*", default-features = false, features = ["json", "stream", "rustls-tls"] }
serde = { version = "*", features = ["derive"] }
serde_json = "*"
sha2 = "*"
tokio = { version = "*", features = ["rt-multi-thread", "macros", "net", "time", "sync", "io-util"] }
tower-http = { version = "*", features = ["cors"] }
urlencoding = "*"
uuid = { version = "*", features = ["v4"] }
