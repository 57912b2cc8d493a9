[package]
name = "chatcore"
version = "0.1.0"
edition = "2021"
publish = false

[dependencies]
ewebsock = "*"
egui = "*"
egui_extras = "*"
eframe = { version = "*", default-features = false, features = ["default_fonts", "glow", "x11"] }
