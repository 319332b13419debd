[package]
name = "server"
version = "0.1.0"
edition = "2021"
publish = false

[dependencies]
uuid = { version = "=1.29.0", features = ["v4"] }
unicode-normalization = "=0.1.26"
image = { version = "=0.25.10", default-features = false, features = ["png", "jpeg", "webp"] }
sha2 = "=0.10.9"
email_address = "=0.2.9"
chrono = { version = "=0.4.45", features = ["serde"] }
serde = { version = "=1.0.229", features = ["derive"] }
serde_json = "=1.0.154"
axum = { version = "=0.8.9", features = ["multipart"] }
axum-extra = { version = "=0.10.3", features = ["cookie"] }
tokio = { version = "=1.54.1", features = ["macros", "rt-multi-thread", "net", "signal", "time"] }
sqlx = { version = "=0.8.6", default-features = false, features = ["runtime-tokio", "mysql", "uuid", "chrono", "macros", "migrate", "json"] }
tracing = "=0.1.44"
tracing-subscriber = { version = "=0.3.23", features = ["env-filter"] }
tower-http = { version = "=0.6.11", features = ["trace"] }
thiserror = "=2.0.21"
ammonia = "4"
async-trait = "0.1"
aws-sdk-s3 = { version = "1", default-features = false, features = ["behavior-version-latest", "rt-tokio"] }
