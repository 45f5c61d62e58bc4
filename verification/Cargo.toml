[package]
name = "rem"
version = "0.1.0"
edition = "2021"
publish = false

[dependencies]
ropey = "1"
gl = "0.14"
glutin = "0.21"
nalgebra-glm = "0.4"
fern = "0.5"
chrono = "0.4"
log = "0.4"
font-kit = "0.5"
euclid = "0.20"
