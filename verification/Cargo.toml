[package]
name = "rigid_sim"
version = "0.1.0"
edition = "2021"
publish = false

[dependencies]
bevy = { version = "=0.17.3", default-features = false, features = ["std", "bevy_asset", "bevy_color", "bevy_camera", "bevy_light", "bevy_mesh", "bevy_shader", "bevy_render", "bevy_core_pipeline", "bevy_post_process", "bevy_pbr", "bevy_window", "bevy_winit", "x11"] }
bevy_ecs = { version = "=0.17.3", default-features = false }
