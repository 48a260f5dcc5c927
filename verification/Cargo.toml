[package]
name = "task_relations"
version = "0.1.0"
edition = "2021"
publish = false

[dependencies]
axum = "=0.8.9"
chrono = { version = "=0.4.45", default-features = false, features = ["std", "clock", "serde"] }
reqwest = { version = "=0.12.28", default-features = false, features = ["json"] }
rmcp = { version = "=0.5.0", features = ["server"] }
schemars = { version = "=1.2.3", features = ["uuid1", "chrono04"] }
serde = { version = "=1.0.229", features = ["derive"] }
serde_json = "=1.0.154"
sqlx = { version = "=0.8.6", default-features = false, features = ["runtime-tokio", "sqlite", "chrono", "uuid", "derive"] }
ts-rs = { version = "=12.0.1", features = ["uuid-impl", "chrono-impl", "serde-json-impl"] }
uuid = { version = "=1.29.0", features = ["v4", "serde"] }
