[package]
name = "fj_core"
version = "0.1.0"
edition = "2021"
publish = false

[dependencies]
itertools = "0.13"
nalgebra = "0.32"
thiserror = "1"
winit = { version = "0.28", default-features = false, features = ["x11"] }
