[package]
name = "upnp_bridge"
version = "0.1.0"
edition = "2021"
publish = false

[dependencies]
anyhow = "1"
bytes = "1"
clap = { version = "4", features = ["derive"] }
default-net = "*"
env_logger = "*"
futures = "0.3"
httparse = "1"
log = "0.4"
socket2 = "*"
tokio = { version = "1", features = ["full"] }
tokio-stream = "0.1"
tonic = "*"
