[package]
name = "termgl"
version = "0.1.0"
edition = "2021"
publish = false

[dependencies]
glam = "*"
crossterm = "*"
image = { version = "*", default-features = false, features = ["jpeg", "png"] }
rand = "*"
