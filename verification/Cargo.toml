[package]
name = "cube_solver"
version = "0.1.0"
edition = "2021"
publish = false

[dependencies]
ahash = "0.8"
clap = { version = "4", features = ["derive"] }
itertools = "0.12"
rand = "0.8"
