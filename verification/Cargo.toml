[package]
name = "egui_logger"
version = "0.1.0"
edition = "2021"
publish = false

[dependencies]
log = "*"
env_logger = "*"
egui = { version = "*", default-features = false }
