[package]
name = "fileaway"
version = "0.1.0"
edition = "2021"
publish = false

[dependencies]
async-channel = "2"
gtk4 = { version = "*", features = ["v4_12"] }
libadwaita = "*"
notify = "4"
walkdir = "2"
