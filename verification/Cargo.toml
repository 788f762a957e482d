[package]
name = "embedded-graphics-gba"
version = "0.1.0"
edition = "2021"
publish = false

[dependencies]
embedded-graphics = "=0.7.1"
gba = { version = "=0.15.0", default-features = false }
voladdress = "=1.4.0"
