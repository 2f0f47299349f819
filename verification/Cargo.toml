[package]
name = "chip_oxide"
version = "0.1.0"
edition = "2021"
publish = false

[dependencies]
rand = "0.10.3"
clap = { version = "4.6.7", features = ["derive"] }
serde = { version = "1.0.229", features = ["derive"] }
serde_json = "1.0.154"
rust-embed = "8.13.0"
rodio = { version = "0.23.0", default-features = false, features = ["playback"] }
eframe = { version = "0.37.0", default-features = false, features = ["default_fonts", "glow", "x11"] }
egui_extras = { version = "0.37.0", default-features = false }
spin_sleep = "1.3.3"
