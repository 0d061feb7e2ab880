[package]
name = "gravity_sim"
version = "0.1.0"
edition = "2021"
publish = false

[dependencies]
atomic_float = "*"
coffee = { version = "0.4", features = ["opengl"] }
dotenv = "0.15"
glam = "*"
parking_lot = "0.12"
rand = "0.8"
rayon = "1"
