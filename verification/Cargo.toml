[package]
name = "simulator"
version = "0.1.0"
edition = "2021"
publish = false

[dependencies]
nom = "=7.1.3"
num = "=0.4.3"
eframe = { version = "=0.37.0", default-features = false, features = ["default_fonts", "glow", "x11"] }
rfd = { version = "=0.17.2", default-features = false, features = ["xdg-portal"] }
