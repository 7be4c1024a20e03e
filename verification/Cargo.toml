[package]
name = "rware"
version = "0.1.0"
edition = "2021"
publish = false

[dependencies]
rand = "0.8"
burn = { version = "0.16", default-features = false, features = ["std"] }
