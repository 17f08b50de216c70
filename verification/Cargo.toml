[package]
name = "rigid_dynamics"
version = "0.1.0"
edition = "2021"
publish = false

[dependencies]
bevy = { version = "0.12", default-features = false }
lerp = "0.5"
parry3d = "0.13"
rand = "0.8"
