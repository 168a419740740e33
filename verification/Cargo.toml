[package]
name = "hastebin"
version = "0.1.0"
edition = "2021"
publish = false

[dependencies]
rand = "=0.8.8"
serde_json = "=1.0.154"
urlencoding = "=2.1.3"
serde = { version = "=1.0.229", features = ["derive"] }
axum = { version = "=0.7.9", features = ["macros"] }
axum-extra = "=0.9.6"
dotenv = "=0.15.0"
sqlx = { version = "0.8", default-features = false, features = ["postgres", "runtime-tokio", "macros"] }
tokio = { version = "=1.54.1", features = ["full"] }
tower-http = { version = "=0.5.2", features = ["cors"] }
