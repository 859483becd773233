[package]
name = "openapi_schema"
version = "0.1.0"
edition = "2021"
publish = false

[dependencies]
openapi = "*"
serde = { version = "*", features = ["derive"] }
serde_json = "*"
chrono = "*"
