[package]
name = "esrs"
version = "0.1.0"
edition = "2021"
publish = false

[dependencies]
uuid = { version = "1", features = ["v4", "serde"] }
chrono = { version = "0.4", features = ["serde"] }
serde = { version = "1", features = ["derive"] }
serde_json = "1"
async-trait = "0.1"
futures = "0.3"
thiserror = "1"
tracing = "0.1"
typed-builder = "0.18"
arc-swap = "1"
ouroboros = "0.18"
bb8 = "0.8"
lapin = { version = "2", default-features = false }
rdkafka = { version = "0.36", default-features = false, features = ["tokio"] }
sqlx = { version = "0.7", default-features = false, features = ["runtime-tokio", "postgres", "sqlite", "uuid", "chrono", "json"] }
tokio = { version = "1", features = ["rt-multi-thread", "macros"] }
