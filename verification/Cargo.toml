[package]
name = "rust_api"
version = "0.1.0"
edition = "2021"
publish = false

[dependencies]
chrono = { version = "0.4", default-features = false, features = ["std", "serde"] }
serde = { version = "1", features = ["derive"] }
serde_json = "1"
crypto_secretbox = "0.1"
axum = "0.7"
sqlx = { version = "0.7", default-features = false, features = ["mysql", "runtime-tokio", "chrono", "macros"] }
