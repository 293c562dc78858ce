[package]
name = "kaze"
version = "0.1.0"
edition = "2021"
publish = false

[dependencies]
bytes = "=1.12.1"
rand = "=0.9.5"
anyhow = "=1.0.104"
atomic-wait = "=1.1.0"
tokio-util = { version = "=0.7.20", features = ["codec"] }
clap = { version = "=4.6.7", features = ["derive"] }
serde = { version = "=1.0.229", features = ["derive"] }
toml = "=0.8.23"
page_size = "=0.6.0"
futures = "=0.3.34"
dirs = "=7.0.0"
toml_edit = "=0.22.27"
papaya = "*"
