[package]
name = "vinilo"
version = "0.1.0"
edition = "2021"
publish = false

[dependencies]
serde_json = "=1.0.154"
md-5 = "=0.10.6"
serde = { version = "=1.0.229", features = ["derive"] }
anyhow = "=1.0.104"
thiserror = "=2.0.21"
tokio = { version = "=1.54.1", features = ["full"] }
reqwest = { version = "=0.12.28", default-features = false, features = ["json", "rustls-tls"] }
ratatui = "=0.29.0"
crossterm = { version = "=0.28.1", features = ["event-stream"] }
futures = "=0.3.34"
libc = "=0.2.191"
tracing = "=0.1.44"
rustfft = "=6.4.1"
mpris-server = "=0.11.0"
libpulse-binding = "=2.30.1"
