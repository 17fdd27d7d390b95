[package]
name = "rusty_sensor"
version = "0.1.0"
edition = "2021"
publish = false

[dependencies]
chrono = "*"
axum = "*"
tokio = { version = "*", features = ["full"] }
mongodb = "*"
serde = { version = "*", features = ["derive"] }
dht22_pi = "*"
hardware-id = "*"
