[package]
name = "modops"
version = "0.1.0"
edition = "2021"
publish = false

[dependencies]
clap = { version = "4", features = ["derive"] }
itertools = "0.14"
roxmltree = "0.20"
walkdir = "2"
