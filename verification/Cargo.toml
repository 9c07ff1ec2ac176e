[package]
name = "hooviestar"
version = "0.1.0"
edition = "2021"
publish = false

[dependencies]
anyhow = "1"
ash = "=0.38.0"
ash-window = "=0.13.0"
ashpd = { version = "=0.13.13", features = ["screencast"] }
fontdb = "=0.23.0"
fontdue = { version = "=0.9.5", default-features = false }
image = { version = "=0.25.10", default-features = false, features = ["bmp", "gif", "jpeg", "png", "tiff", "webp"] }
parking_lot = "0.12"
raw-window-handle = "0.6"
serde = { version = "1", features = ["derive"] }
sha2 = "=0.10.9"
tempfile = "3"
thiserror = "2"
uuid = { version = "=1.29.0", features = ["v4"] }

[dev-dependencies]
serde_json = "1"
