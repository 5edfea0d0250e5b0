[package]
name = "camera_opencv"
version = "0.1.0"
edition = "2021"
publish = false

[dependencies]
json = "0.12"
ndarray = "0.15"
opencv = "0.88"
tokio = { version = "1", features = ["sync", "rt", "time"] }
bevy_reflect = "0.13"
pluginator = "1"
lazy_static = "1"
log = "0.4"
serde = { version = "1", features = ["derive"] }
serde_json = "1"
