[package]
name = "compute_toy"
version = "0.1.0"
edition = "2021"
publish = false

[dependencies]
env_logger = { version = "0.11", default-features = false }
log = "0.4"
serde = { version = "1", features = ["derive"] }
serde_json = "1"
tokio = { version = "1", features = ["rt-multi-thread"] }
wgpu = { version = "0.19", default-features = false, features = ["wgsl"] }
