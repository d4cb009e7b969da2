[package]
name = "sigil_gen"
version = "0.1.0"
edition = "2021"
publish = false

[dependencies]
chrono = "0.4"
macroquad = { version = "0.4", default-features = false }
