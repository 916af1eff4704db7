[package]
name = "openlibrary"
version = "0.1.0"
edition = "2021"
publish = false

[dependencies]
serde = { version = "=1.0.229", features = ["derive"] }
serde_json = "=1.0.151"
url = "=2.5.8"
http = "=1.5.0"
reqwest = { version = "=0.13.5", default-features = false, features = ["json"] }
