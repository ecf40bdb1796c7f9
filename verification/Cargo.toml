[package]
name = "tetrs"
version = "0.1.0"
edition = "2021"
publish = false

[dependencies]
priority-queue = "*"
rand = "0.8"
eframe = { version = "*", default-features = false }
egui = { version = "*", default-features = false }
