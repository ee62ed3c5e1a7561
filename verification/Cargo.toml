[package]
name = "spur_api"
version = "0.1.0"
edition = "2021"
publish = false

[dependencies]
anyhow = "1"
axum = "*"
chrono = "0.4"
clap = { version = "4", features = ["derive", "env"] }
hostname = "*"
prost-types = "*"
serde = { version = "1", features = ["derive"] }
serde_json = "1"
serde_yaml = "*"
tokio = { version = "1", features = ["macros", "rt-multi-thread"] }
