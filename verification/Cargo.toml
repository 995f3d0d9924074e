[package]
name = "cellardoor"
version = "0.1.0"
edition = "2021"
publish = false

[dependencies]
jsonwebtoken = { version = "=11.1.0", features = ["rust_crypto"] }
base64 = "=0.23.1"
serde = { version = "=1.0.229", features = ["derive"] }
serde_json = "=1.0.151"
serde_urlencoded = "=0.7.1"
lru_time_cache = "=0.11.11"
uuid = { version = "=1.27.0", features = ["v4"] }
bcrypt = "=0.19.3"
chrono = "=0.4.45"
