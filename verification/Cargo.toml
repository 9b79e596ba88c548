[package]
name = "scoopgui"
version = "0.1.0"
edition = "2021"
publish = false

[dependencies]
anyhow = "1"
serde = { version = "1", features = ["derive"] }
tokio = { version = "1", features = ["rt-multi-thread", "process", "io-util"] }
eframe = { version = "=0.23.0", default-features = false, features = ["default_fonts", "glow", "x11"] }
egui = "=0.23.0"
env_logger = "0.10"
log = "0.4"
