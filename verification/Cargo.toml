[package]
name = "graphite"
version = "0.1.0"
edition = "2021"
publish = false

[dependencies]
egui = { version = "=0.29.1", features = ["serde"] }
eframe = { version = "=0.29.1", default-features = false, features = ["glow", "default_fonts", "x11"] }
egui-phosphor = { version = "=0.7.3", features = ["fill"] }
log = "=0.4.34"
log-panics = "=2.1.0"
rand = "=0.8.8"
serde = { version = "=1.0.229", features = ["derive"] }
simple_logger = "=5.2.0"
