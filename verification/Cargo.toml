[package]
name = "image_dedup"
version = "0.1.0"
edition = "2021"
publish = false

[dependencies]
anyhow = "=1.0.104"
base64 = "=0.22.1"
chrono = { version = "0.4", default-features = false, features = ["clock", "std"] }
clap = { version = "=4.6.7", features = ["derive"] }
hex = "=0.4.3"
image = { version = "=0.25.10", default-features = false, features = ["png", "jpeg", "gif", "bmp", "tiff", "webp"] }
img_hash = "=3.2.0"
num_cpus = "=1.17.0"
serde = { version = "=1.0.229", features = ["derive"] }
serde_json = "=1.0.154"
walkdir = "=2.5.0"
