[package]
name = "orpc"
version = "0.1.0"
edition = "2021"
publish = false

[dependencies]
base64 = "0.22"
serde_urlencoded = "0.7"
http = "1"
serde = { version = "1", features = ["derive"] }
serde_json = "1"
bytes = "1"
futures-core = "0.3"
futures-util = "0.3"
pin-project-lite = "0.2"
erased-serde = "0.4"
axum = "0.8"
tokio = { version = "1", features = ["rt", "macros", "sync", "time"] }
reqwest = { version = "0.12", default-features = false, features = ["json", "stream"] }
