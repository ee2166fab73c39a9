[package]
name = "session_auth"
version = "0.1.0"
edition = "2021"
publish = false

[dependencies]
rand = "0.8"
hmac = "0.12"
sha2 = "0.10"
axum = "0.6"
axum-login = { version = "0.5", features = ["sqlite"] }
serde = { version = "1", features = ["derive"] }
sqlx = { version = "0.6", features = ["sqlite", "runtime-tokio-rustls"] }
tokio = { version = "1", features = ["full"] }
tower-http = { version = "0.4", features = ["fs"] }
