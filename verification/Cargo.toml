[package]
name = "vrc_manager"
version = "0.1.0"
edition = "2021"
publish = false

[dependencies]
url = "=2.5.8"
rand = "=0.10.3"
tokio = { version = "1", features = ["full"] }
notify = "*"
chrono = "0.4"
once_cell = "1"
anyhow = "1"
serde = { version = "1", features = ["derive"] }
toml = "*"
tracing = "0.1"
tracing-subscriber = "0.3"
reqwest = { version = "0.12", features = ["cookies", "json"] }
vrchatapi = "=1.19.4"
