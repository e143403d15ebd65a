[package]
name = "watermark"
version = "0.1.0"
edition = "2021"
publish = false

[dependencies]
image = { version = "0.25", default-features = false, features = ["png", "jpeg"] }
zip = { version = "0.6", default-features = false, features = ["deflate"] }
axum = { version = "0.7", features = ["multipart"] }
tokio = { version = "1", features = ["full"] }
tower-http = { version = "0.5", features = ["cors"] }
tokio-util = { version = "0.7", features = ["io"] }
futures = "0.3"
bytes = "1"
uuid = { version = "1", features = ["v4"] }
