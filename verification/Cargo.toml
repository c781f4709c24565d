[package]
name = "compress_queue"
version = "0.1.0"
edition = "2021"
publish = false

[dependencies]
uuid = { version = "*", features = ["v4"] }
rusqlite = { version = "*", features = ["bundled"] }
axum = { version = "*", features = ["multipart"] }
tokio = { version = "*", features = ["rt-multi-thread", "macros", "net"] }
tower-http = { version = "*", features = ["cors"] }
rayon = "*"
serde = { version = "*", features = ["derive"] }
