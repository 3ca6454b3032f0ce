[package]
name = "tapciify"
version = "0.1.0"
edition = "2021"
publish = false

[dependencies]
image = { version = "0.25", default-features = false, features = ["png", "jpeg", "webp"] }
imageproc = { version = "0.25", default-features = false }
clap = { version = "4", features = ["derive"] }
crossterm = "*"
indicatif = "*"
thiserror = "*"
