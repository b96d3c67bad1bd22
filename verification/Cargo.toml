[package]
name = "telemetry_ingest"
version = "0.1.0"
edition = "2021"
publish = false

[dependencies]
uuid = "=1.27.0"
axum = "*"
tokio = { version = "*", features = ["rt-multi-thread", "macros", "net"] }
serde = { version = "*", features = ["derive"] }
sqlx = { version = "=0.9.0", features = ["runtime-tokio", "postgres", "chrono", "uuid"] }
chrono = { version = "=0.4.45", features = ["serde"] }
dotenv = "*"
tracing = "*"
tracing-subscriber = "*"
