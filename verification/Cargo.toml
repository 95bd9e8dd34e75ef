[package]
name = "mugunghwa"
version = "0.1.0"
edition = "2021"
publish = false

[dependencies]
argon2 = "=0.5.3"
getrandom = "=0.3.4"
hmac = "=0.12.1"
once_cell = "=1.21.4"
regex = "=1.13.1"
serde = { version = "=1.0.229", features = ["derive"] }
serde_json = "=1.0.154"
sha2 = "=0.10.9"
worker = { version = "=0.8.7", features = ["d1"] }
