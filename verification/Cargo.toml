[package]
name = "rich_text3d"
version = "0.1.0"
edition = "2021"
publish = false

[dependencies]
bevy = { version = "0.16", default-features = false, features = ["std", "bevy_asset", "bevy_color", "bevy_log", "bevy_render"] }
cosmic-text = "0.14"
rustc-hash = "2"
sys-locale = "0.3"
zeno = "0.3"
