[package]
name = "playground"
version = "0.1.0"
edition = "2021"
publish = false

[dependencies]
anyhow = "1"
axum = "0.6"
libc = "0.2"
log = "0.4"
serde = { version = "1", features = ["derive"] }
tokio = { version = "1", features = ["full"] }
toml = "0.7"
tower-http = { version = "0.4", features = ["cors"] }
uuid = { version = "1", features = ["v4"] }
wait-timeout = "0.2"
