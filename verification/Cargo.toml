[package]
name = "koveed"
version = "0.1.0"
edition = "2021"
publish = false

[dependencies]
hmac = "0.12"
libc = "=0.2.191"
rusqlite = { version = "=0.41.1", features = ["bundled"] }
serde = { version = "=1.0.229", features = ["derive"] }
serde_json = "=1.0.154"
sha2 = "0.10"
thiserror = "=2.0.21"
