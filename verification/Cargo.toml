[package]
name = "vyn"
version = "0.12.0"
edition = "2021"
publish = false

[dependencies]
byteorder = "1"
clap = { version = "4", features = ["derive"] }
colored = "2"
indicatif = "0.17"
