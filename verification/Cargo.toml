[package]
name = "dynamic_glyphs"
version = "0.1.0"
edition = "2021"
publish = false

[dependencies]
i-slint-core = { version = "*", default-features = false, features = ["std"] }
