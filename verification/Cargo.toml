[package]
name = "waybar-wireguard"
version = "0.1.0"
edition = "2021"
publish = false

[dependencies]
serde = { version = "1", features = ["derive"] }
serde_jsonc = "*"
waybar-cffi = "*"
wireguard-uapi = "*"
async-process = "2"
