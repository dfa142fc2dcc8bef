[package]
name = "breakout"
version = "0.1.0"
edition = "2021"
publish = false

[dependencies]
glium = "0.23"
image = "0.20"
nalgebra = "0.16"
nalgebra-glm = "0.2"
serde = "1"
serde_derive = "1"
serde_json = "1"
