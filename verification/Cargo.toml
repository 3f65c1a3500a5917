[package]
name = "camera_vms"
version = "0.1.0"
edition = "2021"
publish = false

[dependencies]
sha1 = "*"
base64 = "*"
rand = "*"
uuid = { version = "*", features = ["v4"] }
tokio-cron-scheduler = "*"
tokio = { version = "*", features = ["full"] }
reqwest = { version = "*", default-features = false, features = ["rustls-tls"] }
rusqlite = { version = "*", features = ["bundled"] }
chrono = "*"
chrono-tz = "*"
axum = "*"
tower-http = { version = "*", features = ["fs", "cors"] }
local-ip-address = "*"
serde = { version = "*", features = ["derive"] }
serde_json = "*"
futures = "*"
