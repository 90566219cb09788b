[package]
name = "probdist"
version = "0.1.0"
edition = "2021"
publish = false

[dependencies]
statrs = "0.18"
egui = "0.31"
eframe = { version = "0.31", default-features = false, features = ["default_fonts", "glow", "x11"] }
egui_plot = "0.32"
egui_extras = "0.31"
catppuccin-egui = { version = "5.5", default-features = false, features = ["egui31"] }
