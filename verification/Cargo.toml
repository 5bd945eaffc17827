[package]
name = "desktop-files-creator"
version = "0.1.0"
edition = "2021"
publish = false

[dependencies]
glib = "0.18"
gtk4 = "0.7"
libadwaita = "0.5"
