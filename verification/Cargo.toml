[package]
name = "game_server"
version = "0.1.0"
edition = "2021"
publish = false

[dependencies]
crossbeam-channel = "=0.5.17"
env_logger = "=0.11.11"
log = "=0.4.34"
mio-extras = "=2.0.6"
nalgebra = "=0.30.1"
ncollide2d = "=0.33.0"
serde = { version = "=1.0.229", features = ["derive"] }
serde_json = "=1.0.154"
specs = "=0.20.0"
ws = "=0.9.2"
