[package]
name = "radal"
version = "0.1.0"
edition = "2021"
publish = false

[dependencies]
clap = { version = "*", features = ["derive"] }
glob = "*"
ndarray = "*"
num = "*"
parse_duration = "*"
