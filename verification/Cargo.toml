[package]
name = "lcs"
version = "0.1.0"
edition = "2021"
publish = false

[dependencies]
colour = "*"
rand = "0.8"
