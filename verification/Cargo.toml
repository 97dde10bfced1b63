[package]
name = "enigma"
version = "0.1.0"
edition = "2021"
publish = false

[dependencies]
getopts = "*"
log = "*"
simplelog = "*"
yaml-rust = "*"
