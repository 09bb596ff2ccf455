[package]
name = "sprite_stage"
version = "0.1.0"
edition = "2021"
publish = false

[dependencies]
sdl2 = { version = "0.33", features = ["image"] }
specs = "0.16"
