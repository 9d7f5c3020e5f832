[package]
name = "form-respondent-role"
version = "0.1.0"
edition = "2021"
publish = false

[dependencies]
axum = "=0.8.9"
axum-extra = { version = "=0.10.3", features = ["cookie"] }
base64 = "=0.22.1"
bytes = "=1.12.1"
chrono = { version = "=0.4.45", features = ["serde"] }
dotenvy = "=0.15.7"
futures-util = "=0.3.34"
hmac = "=0.12.1"
rand = "=0.8.8"
regex = "=1.13.1"
reqwest = { version = "=0.12.28", default-features = false, features = ["json", "rustls-tls"] }
serde = { version = "=1.0.229", features = ["derive"] }
serde_json = "=1.0.154"
sha2 = "=0.10.9"
sqlx = { version = "=0.8.6", default-features = false, features = ["runtime-tokio", "tls-rustls", "postgres", "uuid", "chrono", "json", "macros"] }
thiserror = "=2.0.21"
tokio = { version = "=1.54.1", features = ["full"] }
tower_governor = "=0.6.0"
tower-http = { version = "=0.6.11", features = ["compression-br", "compression-gzip", "cors", "request-id", "sensitive-headers", "trace"] }
tracing = "=0.1.44"
tracing-subscriber = { version = "=0.3.23", features = ["env-filter"] }
urlencoding = "=2.1.3"
uuid = { version = "=1.29.0", features = ["v4", "serde"] }
