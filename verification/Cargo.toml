[package]
name = "solstrale"
version = "0.1.0"
edition = "2021"
publish = false

[dependencies]
tobj = "*"
image = "*"
