[package]
name = "maze_runner"
version = "0.1.0"
edition = "2021"
publish = false

[dependencies]
minifb = "0.27"
nalgebra-glm = "0.19"
rodio = "0.19"
