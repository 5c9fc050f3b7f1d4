[package]
name = "coop_core"
version = "0.1.0"
edition = "2021"
publish = false

[dependencies]
hex = "*"
tokio = { version = "*", features = ["full"] }
tokio-util = { version = "*", features = ["codec"] }
futures = "*"
clap = { version = "*", features = ["derive"] }
chrono = "*"
serde = { version = "*", features = ["derive"] }
serde_json = "*"
jsonwebtoken = "*"
actix-web = "*"
rand = "*"
uzers = "*"
pyo3 = "*"
