[package]
name = "route_guide"
version = "0.1.0"
edition = "2021"
publish = false

[dependencies]
active_standby = "0.8"
async-stream = "0.3"
crossbeam = "0.8"
crossfire = "1.1"
futures = "0.3"
prost = "0.13"
rocket = "0.5"
serde = { version = "1", features = ["derive"] }
serde_json = "1"
tokio = { version = "1", features = ["full"] }
tokio-stream = "0.1"
tonic = "0.12"
