[package]
name = "wrkflw_actions"
version = "0.1.0"
edition = "2021"
publish = false

[dependencies]
once_cell = "1"
reqwest = { version = "0.12", default-features = false, features = ["rustls-tls"] }
serde = { version = "1", features = ["derive"] }
serde_yaml = "0.9"
tokio = { version = "1", features = ["sync"] }
