[package]
name = "mdimgedit"
version = "0.1.0"
edition = "2021"
publish = false

[dependencies]
clap = { version = "4", features = ["derive"] }
image = { version = "0.25", default-features = false, features = ["png", "jpeg", "gif", "bmp", "tiff", "webp", "ico"] }
imageproc = { version = "0.25", default-features = false }
kamadak-exif = "0.5"
serde = { version = "1", features = ["derive"] }
serde_json = "1"
thiserror = "1"
