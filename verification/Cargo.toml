[package]
name = "spider"
version = "0.1.0"
edition = "2021"
publish = false

[dependencies]
url = "=2.5.8"
scraper = "=0.29.0"
reqwest = { version = "=0.13.5", features = ["blocking", "cookies", "form"] }
serde = { version = "=1.0.229", features = ["derive"] }
toml = "=1.1.8"
clap = { version = "=4.6.7", features = ["derive"] }
log = "=0.4.34"
simplelog = "=0.12.2"
derive_more = { version = "=2.1.1", features = ["display"] }
axum = "=0.8.9"
tokio = { version = "=1.54.1", features = ["full"] }
