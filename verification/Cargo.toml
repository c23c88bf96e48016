[package]
name = "castiron"
version = "0.1.0"
edition = "2021"
publish = false

[dependencies]
url = "*"
time = { version = "*", features = ["parsing", "formatting"] }
serde = { version = "*", features = ["derive"] }
serde_json = "*"
sqlite = "*"
reqwest = { version = "*", default-features = false, features = ["blocking", "rustls-tls"] }
bytes = "*"
