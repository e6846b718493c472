[package]
name = "herding"
version = "0.1.0"
edition = "2021"
publish = false

[dependencies]
bevy = { version = "0.8", default-features = false, features = ["animation", "bevy_asset", "bevy_scene", "bevy_winit", "render", "png", "hdr", "x11", "filesystem_watcher"] }
bevy_rapier3d = { version = "0.16", default-features = false, features = ["dim3"] }
