[package]
name = "skillhive"
version = "0.1.0"
edition = "2021"
publish = false

[dependencies]
sha2 = "=0.10.9"
chrono = { version = "=0.4.45", default-features = false, features = ["std", "clock"] }
serde = { version = "=1.0.229", features = ["derive"] }
serde_json = "=1.0.154"
uuid = { version = "=1.29.0", features = ["v4"] }
thiserror = "=2.0.21"
rusqlite = { version = "=0.32.1", features = ["bundled"] }
reqwest = { version = "=0.12.28", default-features = false, features = ["blocking", "json", "rustls-tls"] }
keyring = { version = "=3.6.3", features = ["apple-native", "windows-native", "linux-native"] }
zip = { version = "=2.6.1", default-features = false, features = ["deflate"] }
