[package]
name = "gamut"
version = "0.1.0"
edition = "2021"
publish = false

[dependencies]
eframe = { version = "*", default-features = false, features = ["default_fonts", "wayland", "wgpu", "x11"] }
egui = { version = "*", default-features = false, features = ["default_fonts"] }
env_logger = { version = "*", default-features = false }
image = { version = "*", default-features = false, features = ["jpeg", "png"] }
log = "*"
serde = { version = "1", features = ["derive"] }
serde_json = "1"
