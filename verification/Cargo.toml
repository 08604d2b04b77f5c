[package]
name = "blitz_cipher"
version = "0.1.24"
edition = "2021"
publish = false

[dependencies]
crossterm = "0.28"
rand = "0.8"
gilrs = "0.10"
rodio = { version = "0.17", default-features = false }
