[package]
name = "unbalanced_brawl"
version = "0.1.0"
edition = "2021"
publish = false

[dependencies]
rand = "=0.8.8"
bevy = { version = "=0.5.0", default-features = false, features = ["bevy_winit", "bevy_wgpu", "render", "png", "x11"] }
bevy_kira_audio = "=0.6.0"
bevy_asset_loader = { version = "=0.7.0", features = ["render"] }
ezing = "=0.2.1"
