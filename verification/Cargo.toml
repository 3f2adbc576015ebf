[package]
name = "game_client"
version = "0.1.0"
edition = "2021"
publish = false

[dependencies]
bincode = { version = "=0.6.1", default-features = false, features = ["rustc-serialize"] }
rand = "=0.8.8"

[dev-dependencies]
rustc-serialize = "=0.3.25"
