[package]
name = "mpc_emulator"
version = "0.1.0"
edition = "2021"
publish = false

[dependencies]
egui = { version = "0.31", default-features = false, features = ["default_fonts"] }
rodio = { version = "0.20", default-features = false, features = ["wav"] }
cpal = "0.15"
