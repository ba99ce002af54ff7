[package]
name = "rockery_datamodel"
version = "0.1.0"
edition = "2021"
publish = false

[dependencies]
base64 = "0.22"
ehttp = "*"
egui = "*"
log = "0.4"
serde = { version = "1", features = ["derive"] }
serde_json = "1"
