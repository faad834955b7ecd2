[package]
name = "rainmetal_goap"
version = "0.1.0"
edition = "2021"
publish = false

[dependencies]
pathfinding = "4"
bevy = { version = "0.15", default-features = false }
rand = "0.8"
ordered-float = "4"
num-traits = "0.2"
serde = { version = "1", features = ["derive"] }
