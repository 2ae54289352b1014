[package]
name = "accord_mobile"
version = "0.1.0"
edition = "2021"
publish = false

[dependencies]
urlencoding = "2"
reqwest = { version = "0.12", default-features = false, features = ["json"] }
serde = { version = "1", features = ["derive"] }
serde_json = "1"
axum = "0.8"
tokio = { version = "1", features = ["full"] }
hyper = { version = "1", features = ["server", "http1"] }
hyper-util = { version = "0.1", features = ["tokio", "service"] }
socket2 = { version = "0.5", features = ["all"] }
tracing = "0.1"
tracing-subscriber = { version = "0.3", features = ["env-filter"] }
dotenvy = "0.15"
rusqlite = { version = "0.32", features = ["bundled"] }
heed = "0.20"
bincode = "1"
sha2 = "0.10"
time = { version = "0.3", features = ["serde"] }
async-trait = "0.1"
async-stream = "0.3"
futures-core = "0.3"
tower-http = { version = "0.6", features = ["trace"] }
