[package]
name = "noah"
version = "0.1.0"
edition = "2021"
publish = false

[dependencies]
anyhow = "1"
axum = "=0.8.9"
clap = { version = "4", features = ["derive"] }
pgvector = { version = "=0.4.2", features = ["sqlx"] }
reqwest = { version = "=0.12.28", default-features = false, features = ["json"] }
serde = { version = "1", features = ["derive"] }
serde_json = "1"
sqlx = { version = "=0.9.0", default-features = false, features = ["runtime-tokio", "postgres", "json"] }
tokio = { version = "1", features = ["full"] }
tracing-subscriber = "0.3"
