[package]
name = "hurry"
version = "0.1.0"
edition = "2021"
publish = false

[dependencies]
rs-snowflake = "0.6"
chrono = "0.4"
axum = "0.7"
tokio = { version = "1", features = ["macros", "rt-multi-thread", "net"] }
socketioxide = { version = "0.10", features = ["state"] }
serde = { version = "1", features = ["derive"] }
serde_json = "1"
jsonwebtoken = "9"
dotenv = "0.15"
lazy_static = "1"
thiserror = "1"
futures = "0.3"
