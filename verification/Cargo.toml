[package]
name = "guildbot"
version = "0.1.0"
edition = "2021"
publish = false

[dependencies]
base64 = "*"
md5 = "*"
rusqlite = { version = "*", features = ["bundled"] }
chrono = "*"
serde = { version = "*", features = ["derive"] }
serde_json = "*"
urlencoding = "*"
reqwest = { version = "*", default-features = false, features = ["blocking", "json", "rustls-tls"] }
