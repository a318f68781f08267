[package]
name = "gma_runner"
version = "0.1.0"
edition = "2021"
publish = false

[dependencies]
eframe = { version = "0.32", default-features = false, features = ["default_fonts", "glow", "x11"] }
image = "0.25"
rand = "0.9"
serde = { version = "1", features = ["derive"] }
toml = "0.9"
