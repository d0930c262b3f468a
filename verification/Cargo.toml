[package]
name = "rust_axum_layered_rest_api"
version = "0.1.0"
edition = "2021"
publish = false

[dependencies]
argon2 = "0.5"
axum = "0.8"
axum-extra = { version = "*", features = ["cookie"] }
chrono = "0.4"
dotenvy = "0.15"
getrandom = "0.3"
jsonwebtoken = { version = "*", features = ["rust_crypto"] }
redis = { version = "*", features = ["tokio-comp", "connection-manager"] }
serde = { version = "1", features = ["derive"] }
serde_json = { version = "1", features = ["raw_value"] }
sha2 = "0.10"
sqlx = { version = "0.8", default-features = false, features = ["runtime-tokio", "postgres", "chrono"] }
tokio = { version = "1", features = ["full"] }
tower-http = { version = "*", features = ["trace"] }
tracing = "0.1"
tracing-subscriber = { version = "0.3", features = ["fmt", "env-filter"] }
uuid = { version = "1", features = ["v4"] }
validator = "*"
