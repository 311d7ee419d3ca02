[package]
name = "rope"
version = "0.1.0"
edition = "2021"
publish = false

[dependencies]
anyhow = "=1.0.104"
axum = { version = "=0.8.9", features = ["ws"] }
base64 = "=0.22.1"
clap = { version = "=4.6.7", features = ["derive"] }
crossterm = "=0.29.0"
directories = "=6.0.0"
eventsource-stream = "=0.2.3"
futures-util = "=0.3.34"
globset = "=0.4.21"
ignore = "=0.4.34"
libc = "=0.2.191"
regex = "=1.13.1"
reqwest = { version = "=0.12.28", default-features = false, features = ["json", "rustls-tls", "stream"] }
scraper = "=0.29.0"
serde = { version = "=1.0.229", features = ["derive"] }
serde_json = "=1.0.154"
similar = "=2.7.0"
tempfile = "=3.27.0"
tokio = { version = "=1.54.1", features = ["full"] }
toml = "=1.1.8"
url = "=2.5.8"
uuid = { version = "=1.29.0", features = ["v4"] }
