[package]
name = "portrooter"
version = "0.1.0"
edition = "2021"
publish = false

[dependencies]
urlencoding = "2"
http = "1"
axum = "0.7"
tokio = { version = "1", features = ["full"] }
hyper-util = { version = "0.1", features = ["client-legacy", "http1", "tokio"] }
http-body-util = "0.1"
serde = { version = "1", features = ["derive"] }
toml = "0.8"
html-escape = "0.2"
