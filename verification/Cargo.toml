[package]
name = "analytics"
version = "0.1.0"
edition = "2021"
publish = false

[dependencies]
anyhow = "1"
axum = "0.8"
base64 = "0.22"
chrono = "0.4"
dotenvy = "0.15"
flate2 = "1"
maxminddb = "0.24"
minijinja = { version = "2", features = ["loader"] }
moka = { version = "0.12", features = ["future"] }
rand = "0.8"
reqwest = { version = "0.12", default-features = false, features = ["rustls-tls"] }
serde = { version = "1", features = ["derive"] }
serde_json = "1"
sha2 = "0.10"
sqlx = { version = "0.8", default-features = false, features = ["runtime-tokio", "sqlite", "migrate", "macros"] }
tokio = { version = "1", features = ["full"] }
tower = "0.5"
tower-cookies = { version = "0.11", features = ["signed"] }
tower-http = { version = "0.6", features = ["fs", "cors", "set-header"] }
tracing = "0.1"
tracing-subscriber = { version = "0.3", features = ["env-filter"] }
uaparser = "0.6"
urlencoding = "2"
uuid = { version = "1", features = ["v4"] }
