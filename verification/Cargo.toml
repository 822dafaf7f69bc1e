[package]
name = "verlet"
version = "0.1.0"
edition = "2021"
publish = false

[dependencies]
piston = "*"
piston_window = "*"
