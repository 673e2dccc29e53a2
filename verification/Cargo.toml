[package]
name = "ipa"
version = "0.1.0"
edition = "2021"
publish = false

[dependencies]
anyhow = "=1.0.104"
eframe = { version = "0.29", default-features = false, features = ["glow", "default_fonts", "x11"] }
egui = { version = "0.29", default-features = false }
egui_extras = { version = "0.29", default-features = false }
env_logger = { version = "=0.11.11", default-features = false }
flate2 = "=1.1.10"
log = "=0.4.34"
pdf = "=0.9.1"
