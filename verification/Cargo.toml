[package]
name = "planet_surface"
version = "0.1.0"
edition = "2021"
publish = false

[dependencies]
bevy = { version = "0.17", default-features = false }
bevy_mesh = { version = "0.17", default-features = false }
futures-lite = "2"
serde = { version = "1", features = ["derive"] }
serde_json = "1"
