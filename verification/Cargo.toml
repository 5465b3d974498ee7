[package]
name = "swerve_kinematics"
version = "0.1.0"
edition = "2021"
publish = false

[dependencies]
nalgebra = "=0.32.6"
nt = "=3.0.0"
sdl2 = { version = "=0.35.2", features = ["image", "gfx"] }
tokio = { version = "=0.2.25", features = ["full"] }
