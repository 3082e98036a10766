[package]
name = "tiphia-core"
version = "0.1.0"
edition = "2021"
publish = false

[dependencies]
chrono = "0.4"
serde = { version = "1", features = ["derive"] }
serde_json = "1"
thiserror = "2"
toml = "0.8"
tokio = { version = "1", features = ["sync", "macros", "rt-multi-thread"] }
axum = "0.8"
tower-http = { version = "0.6", features = ["compression-gzip", "timeout", "trace", "set-header", "cors"] }
tracing = "0.1"
tracing-appender = "0.2"
tracing-subscriber = { version = "0.3", features = ["env-filter", "json"] }
utoipa = { version = "5", features = ["chrono"] }
sea-orm = { version = "1", default-features = false, features = ["sqlx-sqlite", "runtime-tokio-rustls", "macros", "with-chrono", "with-json"] }
jsonwebtoken = "9"
async-trait = "0.1"
redis = { version = "0.27", features = ["tokio-comp", "connection-manager"] }
