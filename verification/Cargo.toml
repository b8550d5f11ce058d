[package]
name = "service_library"
version = "0.1.0"
edition = "2021"
publish = false

[dependencies]
uuid = { version = "*", features = ["v4"] }
bcrypt = "*"
chrono = "*"

[dev-dependencies]
serde_json = "*"
