[package]
name = "extracteroid"
version = "0.1.0"
edition = "2021"
publish = false

[dependencies]
glam = "0.29"
egui = { version = "0.29", default-features = false }
