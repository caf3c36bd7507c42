[package]
name = "zero2prod"
version = "0.1.0"
edition = "2021"
publish = false

[dependencies]
argon2 = "0.5"
base64 = "0.22"
chrono = { version = "0.4", default-features = false, features = ["clock"] }
rand = "0.8"
serde = { version = "1", features = ["derive"] }
serde_json = "1"
unicode-segmentation = "1"
uuid = { version = "1", features = ["v4"] }
