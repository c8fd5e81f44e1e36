[package]
name = "fnb_costing"
version = "0.1.0"
edition = "2021"
publish = false

[dependencies]
eframe = { version = "=0.32.3", default-features = false, features = ["glow", "persistence", "x11"] }
egui = { version = "=0.32.3", default-features = false }
jni = "=0.21.1"
log = "=0.4.34"
ndk-sys = { version = "=0.6.0", features = ["test"] }
serde = { version = "=1.0.229", features = ["derive"] }
