[package]
name = "rapture"
version = "0.1.0"
edition = "2021"
publish = false

[dependencies]
clap = "2"
dirs = "*"
hex_d_hex = "*"
os_info = { version = "*", default-features = false }
walkdir = "2"
