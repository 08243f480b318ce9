[package]
name = "revgrad"
version = "0.1.0"
edition = "2021"

[dependencies]
ndarray = "*"
num-traits = "*"
