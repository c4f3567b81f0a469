[package]
name = "ferriscraft"
version = "0.1.0"
edition = "2021"
publish = false

[dependencies]
rayon = "=1.12.0"
serde = { version = "=1.0.229", features = ["derive"] }
bincode = "=1.3.3"
toml = "=0.8.23"
chrono = "=0.4.45"
rand = "=0.9.5"
renet = "=1.2.0"
renet_netcode = "=1.2.0"
bevy_math = { version = "=0.20.1", features = ["serialize"] }
noiz = "=0.6.0"
