[package]
name = "overworld_core"
version = "0.1.0"
edition = "2021"
publish = false

[dependencies]
async-trait = "=0.1.64"
bevy = { version = "=0.7.0", default-features = false, features = ["render", "bevy_winit", "png", "x11"] }
bevy-inspector-egui = "=0.11.0"
rand = "=0.8.8"
