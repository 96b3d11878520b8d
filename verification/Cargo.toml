[package]
name = "emitter"
version = "0.1.0"
edition = "2021"
publish = false

[dependencies]
rand = "=0.8.8"
tokio = { version = "=1.54.1", features = ["rt-multi-thread", "macros", "sync", "time", "net"] }
serde = { version = "=1.0.229", features = ["derive"] }
serde_json = "=1.0.154"
serde_yaml = "=0.9.34"
tracing = "=0.1.44"
tracing-subscriber = { version = "=0.3.23", features = ["env-filter"] }
chrono = { version = "=0.4.45", features = ["serde"] }
uuid = { version = "=1.29.0", features = ["v4"] }
async-trait = "=0.1.92"
axum = { version = "=0.8.9", features = ["ws"] }
futures = "=0.3.34"
async-openai = { version = "=0.43.0", features = ["rustls", "embedding"] }
qdrant-client = { version = "=1.20.0", default-features = false, features = ["serde"] }
sqlx = { version = "=0.9.0", default-features = false, features = ["runtime-tokio", "postgres", "chrono"] }
pgvector = { version = "=0.4.2", features = ["sqlx"] }
opensearch = { version = "=2.4.0", default-features = false, features = ["rustls-tls"] }
elasticsearch = { version = "=8.19.0-alpha.1", default-features = false, features = ["rustls-tls"] }
