[package]
name = "telegraph_rs"
version = "0.1.0"
edition = "2021"
publish = false

[dependencies]
kuchikiki = "=0.8.2"
mime_guess = "=2.0.5"
reqwest = { version = "=0.12.28", default-features = false, features = ["json", "multipart", "rustls-tls"] }
serde = { version = "=1.0.229", features = ["derive"] }
serde_json = "=1.0.154"
