[package]
name = "tesela"
version = "0.1.0"
edition = "2021"
publish = false

[dependencies]
serde = { version = "=1.0.229", features = ["derive"] }
serde_json = "=1.0.154"
schemars = "=1.2.3"
jsonschema = { version = "=0.60.2", default-features = false }
chrono = { version = "=0.4.45", default-features = false, features = ["std", "clock"] }
uuid = { version = "=1.29.0", features = ["v4"] }
base64 = "=0.22.1"
getrandom = "=0.4.3"
