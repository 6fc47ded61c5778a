[package]
name = "scribe"
version = "0.1.0"
edition = "2021"
publish = false

[dependencies]
chrono = "0.4"
sha2 = "0.10"
sha1 = "0.10"
uuid = { version = "1", features = ["v4"] }
base64 = "0.22"
serde = { version = "1", features = ["derive"] }
serde_json = "1"
reqwest = { version = "0.12", default-features = false, features = ["blocking", "json", "rustls-tls"] }
hound = "3"
