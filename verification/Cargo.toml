[package]
name = "ouch"
version = "0.1.0"
edition = "2021"
publish = false

[dependencies]
colored = "*"
fs-err = "*"
walkdir = "*"
tar = "*"
flate2 = "*"
