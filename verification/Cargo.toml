[package]
name = "miniapp_auth"
version = "0.1.0"
edition = "2021"
publish = false

[dependencies]
hmac = "*"
sha2 = "*"
base64 = "*"
serde_json = "*"
serde = { version = "*", features = ["derive"] }
axum = "*"
tokio = { version = "*", features = ["macros", "rt-multi-thread", "net"] }
jsonwebtoken = "*"
uuid = { version = "*", features = ["v4", "serde"] }
chrono = { version = "*", features = ["serde"] }
anyhow = "*"
dotenvy = "*"
tower = "*"
tower-http = { version = "*", features = ["cors", "trace"] }
tracing = "*"
tracing-subscriber = { version = "*", features = ["env-filter"] }
rust_decimal = { version = "*", features = ["serde"] }

[dev-dependencies]
hex = "*"
percent-encoding = "*"
