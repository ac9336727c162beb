[package]
name = "sleuth"
version = "0.0.1"
edition = "2021"
publish = false

[dependencies]
async-trait = "=0.1.92"
clap = { version = "=4.6.7", features = ["derive"] }
colored = "=2.2.0"
headless_chrome = "=0.9.0"
reqwest = "=0.12.28"
serde = { version = "=1.0.229", features = ["derive"] }
serde_json = "=1.0.154"
thiserror = "=1.0.69"
tokio = { version = "=1.54.1", features = ["full"] }
