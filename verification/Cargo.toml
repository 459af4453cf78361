[package]
name = "osci_rs"
version = "0.1.0"
edition = "2021"
publish = false

[dependencies]
ab_glyph = "*"
cpal = "*"
image = { version = "*", default-features = false, features = ["png", "jpeg"] }
log = "*"
midir = "*"
nalgebra = "*"
serde = { version = "*", features = ["derive"] }
serde_json = "*"
thiserror = "*"
tobj = "*"
usvg = { version = "*", default-features = false }
