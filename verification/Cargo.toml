[package]
name = "vapor"
version = "0.1.0"
edition = "2021"
publish = false

[dependencies]
base64 = "=0.22.1"
chrono = { version = "=0.4.45", default-features = false, features = ["alloc"] }
serde_json = "=1.0.154"
futures = "=0.3.34"
