[package]
name = "bjrs"
version = "0.1.0"
edition = "2021"
publish = false

[dependencies]
libc = "0.2"
clap = { version = "4", features = ["derive"] }
