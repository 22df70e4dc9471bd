[package]
name = "vcp"
version = "0.1.0"
edition = "2021"
publish = false

[dependencies]
anyhow = "1"
esp-idf-svc = "*"
log = "0.4"
petgraph = "0.6"
rand = "0.8"
serde = { version = "1", features = ["derive"] }
serde_json = "1"
