[package]
name = "coordinator_server"
version = "0.1.0"
edition = "2021"
publish = false

[dependencies]
sha2 = "0.10"
hex = "0.4"
subtle = "2"
getrandom = "0.3"
url = "2"
chrono = { version = "0.4", default-features = false, features = ["std", "clock"] }
uuid = { version = "1", features = ["v4"] }
argon2 = "0.5"
serde = { version = "1", features = ["derive"] }
serde_json = "1"
axum = "0.8"
