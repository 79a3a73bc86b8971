[package]
name = "pea"
version = "0.1.0"
edition = "2021"
publish = false

[dependencies]
shakmaty = "=0.29.4"
rand = "=0.10.3"
serde = { version = "=1.0.229", features = ["derive"] }
serde_yaml = "=0.9.34"
glob = "=0.3.4"
