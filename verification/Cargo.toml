[package]
name = "cart_server"
version = "0.1.0"
edition = "2021"
publish = false

[dependencies]
anyhow = "1"
async-trait = "0.1"
axum = "0.8"
backon = { version = "1", features = ["tokio-sleep"] }
camino = "1"
clap = { version = "4", features = ["derive"] }
config = { version = "*", default-features = false, features = ["yaml"] }
disintegrate = { version = "*", features = ["macros", "serde-json"] }
disintegrate-postgres = { version = "*", features = ["listener"] }
futures = "0.3"
jiff = "0.2"
jiff-sqlx = { version = "*", features = ["postgres"] }
rdkafka = "*"
rust_decimal = "1"
serde = { version = "1", features = ["derive"] }
serde-aux = "4"
serde_json = "1"
sqlx = { version = "0.8", default-features = false, features = ["runtime-tokio", "postgres", "uuid", "rust_decimal", "macros"] }
strum_macros = "*"
thiserror = "*"
tokio = { version = "1", features = ["full"] }
tokio-graceful-shutdown = "*"
tokio-util = "0.7"
tower-http = { version = "*", features = ["trace"] }
tracing = "0.1"
tracing-appender = "0.2"
tracing-subscriber = "0.3"
uuid = { version = "1", features = ["v4", "v7", "serde"] }
