[package]
name = "gescher"
version = "0.1.0"
edition = "2021"
publish = false

[dependencies]
circular-queue = "=0.2.7"
serde = { version = "=1.0.229", features = ["derive"] }
serde_yaml = "=0.9.34"
serde_json = "=1.0.154"
anyhow = "=1.0.104"
rdev = { version = "=0.5.3", features = ["unstable_grab"] }
colored = "=3.1.1"
thousands = "=0.2.0"
