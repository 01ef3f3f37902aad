[package]
name = "t6proto"
version = "0.1.0"
edition = "2021"
publish = false

[dependencies]
rusb = "*"
serde = { version = "*", features = ["derive"] }
serde_json = "*"
image = { version = "*", default-features = false, features = ["png", "jpeg"] }
turbojpeg = "*"
turbojpeg-sys = "*"
ffmpeg-next = "*"
