[package]
name = "bevy_make_human"
version = "0.1.0"
edition = "2021"
publish = false

[dependencies]
serde = { version = "=1.0.229", features = ["derive"] }
serde_json = "=1.0.154"
strum = { version = "=0.28.0", features = ["derive"] }
thiserror = "=2.0.21"
bevy = { version = "=0.17.3", default-features = false, features = ["std", "multi_threaded", "bevy_pbr", "bevy_animation", "bevy_state", "png"] }
obj = "=0.10.2"
avian3d = "0.4"
bevy_asset_loader = "0.24"
bevy_obj = "0.17"
