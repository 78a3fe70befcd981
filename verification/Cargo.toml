[package]
name = "triple_triad"
version = "0.1.0"
edition = "2021"
publish = false

[dependencies]
rand = "0.8"
mint = "0.5"
tween = "2"
serde = { version = "1", features = ["derive"] }
serde_json = "1"
serde_with = { version = "3", default-features = false, features = ["macros"] }
bytemuck = "1"
crevice = "0.13"
