[package]
name = "urms"
version = "0.1.0"
edition = "2021"
publish = false

[dependencies]
keyring = { version = "=3.6.3", default-features = false, features = ["apple-native", "linux-native", "windows-native"] }
urlencoding = "=2.1.3"
oauth2 = { version = "=5.0.0", default-features = false }
reqwest = { version = "=0.12.28", default-features = false, features = ["blocking", "json", "rustls-tls"] }
webbrowser = "=1.2.4"
serde_json = "=1.0.151"
chrono = { version = "=0.4.45", default-features = false, features = ["clock"] }
