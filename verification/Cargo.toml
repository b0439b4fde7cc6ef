[package]
name = "orient"
version = "0.1.0"
edition = "2021"
publish = false

[dependencies]
serde = { version = "=1.0.229", features = ["derive"] }
serde_json = "=1.0.154"
ureq = "=2.12.1"
uuid = { version = "=1.29.0", features = ["v4"] }
zip = { version = "=0.6.6", default-features = false, features = ["deflate"] }
