[package]
name = "tdview"
version = "0.1.0"
edition = "2021"
publish = false

[dependencies]
anyhow = "1"
chrono = "0.4"
lazy_static = "1"
serde = { version = "1", features = ["derive"] }
taos = "0.12"
tokio = { version = "1", features = ["rt"] }
toml = "0.8"
