[package]
name = "mahou_vmc"
version = "0.1.0"
edition = "2021"
publish = false

[dependencies]
glam = "*"
rosc = "*"
