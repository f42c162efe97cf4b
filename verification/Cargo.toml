[package]
name = "rs_term"
version = "0.1.0"
edition = "2021"
publish = false

[dependencies]
vt100 = "0.15.2"
portable-pty = "0.8"
anyhow = "1"
serde = { version = "1", features = ["derive"] }
serde_json = "1"
egui = "0.29"
eframe = { version = "0.29", default-features = false, features = ["default_fonts", "glow", "x11"] }
