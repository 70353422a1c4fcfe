[package]
name = "person_service"
version = "0.1.0"
edition = "2021"
publish = false

[dependencies]
mysql = "*"
serde = { version = "1", features = ["derive"] }
tokio = { version = "1", features = ["rt-multi-thread"] }
toml = "*"
