[package]
name = "easel"
version = "0.1.0"
edition = "2021"
publish = false

[dependencies]
uuid = { version = "=1.29.0", features = ["v4"] }
base64 = "=0.22.1"
plist = "=1.10.3"
url = { version = "=2.5.8", features = ["serde"] }
serde = { version = "=1.0.229", features = ["derive"] }
serde_json = "=1.0.154"
toml = "=0.8.23"
thiserror = "=2.0.21"
directories = "=5.0.1"
image = { version = "=0.25.10", default-features = false, features = ["gif", "png", "jpeg", "webp", "bmp", "tiff"] }
notify = "*"
rusqlite = { version = "*", features = ["bundled"] }
reqwest = { version = "*", default-features = false, features = ["blocking", "rustls-tls"] }
