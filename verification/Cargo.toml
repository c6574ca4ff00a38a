[package]
name = "bakery"
version = "0.1.0"
edition = "2021"
publish = false

[dependencies]
base64 = "*"
serde_json = "1"
serde = { version = "1", features = ["derive"] }
actix-web = "4"
