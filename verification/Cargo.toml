[package]
name = "qmunlock"
version = "0.1.0"
edition = "2021"
publish = false

[dependencies]
plist = "1"
serde = { version = "1", features = ["derive"] }
serde_json = "1"
reqwest = { version = "0.12", default-features = false, features = ["json", "rustls-tls"] }
thiserror = "2"
tauri = { version = "2", default-features = false }
