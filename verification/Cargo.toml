[package]
name = "psp_coin"
version = "0.1.0"
edition = "2021"
publish = false

[dependencies]
ink = { version = "6.0.0-alpha", default-features = false }
