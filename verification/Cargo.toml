[package]
name = "iris_ui"
version = "0.1.0"
edition = "2021"
publish = false

[dependencies]
hashbrown = "0.15"
embedded-graphics = "0.8"
log = "0.4"
