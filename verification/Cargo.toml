[package]
name = "bevy_foliage_tool"
version = "0.1.0"
edition = "2021"
publish = false

[dependencies]
bevy = { version = "=0.16.1", default-features = false, features = ["bevy_pbr", "bevy_state", "bevy_log", "serialize"] }
serde = { version = "=1.0.229", features = ["derive"] }
ron = "=0.8.1"
bincode = "=1.3.3"
rand = "=0.8.8"
