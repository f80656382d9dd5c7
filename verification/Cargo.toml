[package]
name = "rusimeta"
version = "0.1.0"
edition = "2021"
publish = false

[dependencies]
kamadak-exif = "0.5"
chrono = "0.4"

[dev-dependencies]
serde_json = "1"
