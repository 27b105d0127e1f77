[package]
name = "url_shortener"
version = "0.1.0"
edition = "2021"
publish = false

[dependencies]
base62 = "=2.2.6"
uuid = { version = "=1.29.0", features = ["v5"] }
url = "=2.5.8"
bson = "=2.15.0"
serde = { version = "=1.0.229", features = ["derive"] }
serde_json = "=1.0.154"
mongodb = "=3.9.1"
redis = { version = "0.29", features = ["tokio-comp"] }
axum = "=0.8.9"
tokio = { version = "=1.54.1", features = ["full"] }
tower-http = { version = "=0.6.11", features = ["trace"] }
tracing = "=0.1.44"
tracing-subscriber = "=0.3.23"
dotenvy = "=0.15.7"
chrono = "=0.4.45"
futures-util = "=0.3.34"
