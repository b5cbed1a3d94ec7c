[package]
name = "photo_organizer"
version = "0.1.0"
edition = "2021"
publish = false

[dependencies]
unicode-normalization-alignments = "0.1"
blake3 = { version = "1", features = ["pure"] }
chrono = "0.4"
serde = { version = "1", features = ["derive"] }
serde_json = "1"
uuid = { version = "1", features = ["v4"] }
walkdir = "2"
thiserror = "2"
base64 = "0.22"
