[package]
name = "oauth2"
version = "0.1.0"
edition = "2021"
publish = false

[dependencies]
textnonce = "*"
serde = { version = "*", features = ["derive"] }
serde_json = "*"

[dev-dependencies]
url = "*"
