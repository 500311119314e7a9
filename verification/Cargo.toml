[package]
name = "game_debug"
version = "0.1.0"
edition = "2021"
publish = false

[dependencies]
bevy_platform = "0.17"
serde = { version = "1", features = ["derive"] }
bevy = { version = "0.17", default-features = false }
