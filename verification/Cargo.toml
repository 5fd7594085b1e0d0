[package]
name = "shader_store"
version = "0.1.0"
edition = "2021"
publish = false

[dependencies]
anyhow = "1"
egui = "0.17"
egui_glium = "0.17"
env_logger = "0.9"
glam = "0.20"
glium = "0.31"
image = { version = "0.24", default-features = false, features = ["png", "jpeg"] }
log = "0.4"
notify = "5"
ron = "0.7"
serde = { version = "1", features = ["derive"] }
serde_json = "1"
