[package]
name = "codepop"
version = "0.1.0"
edition = "2021"
publish = false

[dependencies]
sha2 = "0.10"
hex = "0.4"
dirs = "6"
sys-locale = "0.3"
serde = { version = "1", features = ["derive"] }
serde_json = "1"
reqwest = { version = "0.12", default-features = false, features = ["json", "rustls-tls"] }
tokio = { version = "1", features = ["time", "rt"] }
objc2 = "0.6"
objc2-app-kit = "0.3"
objc2-foundation = "0.3"
core-graphics = "0.24"
core-foundation = "0.10"
