[package]
name = "tile_matching_game"
version = "0.1.0"
edition = "2021"
publish = false

[dependencies]
emojis = "=0.6.4"
rand = "=0.8.8"
serde = { version = "=1.0.229", features = ["derive"] }
serde_json = "=1.0.154"
vizia = "0.2"
