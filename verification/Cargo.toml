[package]
name = "worldgen"
version = "0.1.0"
edition = "2021"
publish = false

[dependencies]
bracket-lib = "=0.8.7"
image = { version = "=0.25.10", default-features = false, features = ["png"] }
