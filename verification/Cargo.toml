[package]
name = "typeing"
version = "0.1.0"
edition = "2021"
publish = false

[dependencies]
termion = "*"
clap = { version = "4", features = ["derive"] }
