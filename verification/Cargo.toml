[package]
name = "rusty"
version = "0.1.0"
edition = "2021"
publish = false

[dependencies]
env_logger = "*"
glium = "0.31"
image = "*"
log = "*"
