[package]
name = "kifetch"
version = "0.1.0"
edition = "2021"
publish = false

[dependencies]
regex = "=1.13.1"
serde = { version = "=1.0.229", features = ["derive"] }
toml = "=0.8.23"
libc = "=0.2.191"
pnet = "=0.35.0"
serde_json = "1"
sysinfo = "0.30"
nvml-wrapper = "0.10"
