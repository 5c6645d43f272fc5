[package]
name = "scene_viewer"
version = "0.1.0"
edition = "2021"
publish = false

[dependencies]
bevy = { version = "0.15", default-features = false, features = ["animation", "bevy_asset", "bevy_core_pipeline", "bevy_gltf", "bevy_pbr", "bevy_render", "bevy_scene", "bevy_window", "bevy_winit", "multi_threaded", "png", "tonemapping_luts", "x11"] }
bevy_rts_camera = "0.9"
