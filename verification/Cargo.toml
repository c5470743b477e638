[package]
name = "tetry"
version = "0.1.0"
edition = "2021"
publish = false

[dependencies]
fastrand = "2"
bevy = { version = "0.13", default-features = false }
