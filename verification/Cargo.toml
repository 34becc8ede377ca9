[package]
name = "chip8"
version = "0.1.0"
edition = "2021"
publish = false

[dependencies]
fermium = { version = "=22605.0.1", default-features = false, features = ["cargo_check"] }
