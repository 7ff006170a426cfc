[package]
name = "one_clicker"
version = "0.1.0"
edition = "2021"
publish = false

[dependencies]
bevy = { version = "0.9", default-features = false, features = ["bevy_asset", "bevy_core_pipeline", "bevy_render", "bevy_sprite", "bevy_text", "bevy_ui"] }
bevy_tweening = { version = "0.6", default-features = false }
iyes_loopless = "0.9"
rand = "0.8"
