[package]
name = "trng"
version = "0.1.0"
edition = "2021"
publish = false

[dependencies]
byteorder = "1"
crossterm = "0.25"
tui = "0.19"
