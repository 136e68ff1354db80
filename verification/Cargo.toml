[package]
name = "pixlie_ai"
version = "0.1.0"
edition = "2021"
publish = false

[dependencies]
url = "=2.5.8"
texting_robots = "=0.2.2"
chrono = { version = "=0.4.45", default-features = false, features = ["clock", "std"] }
scraper = "=0.29.0"
ego-tree = "=0.11.1"
serde = { version = "=1.0.229", features = ["derive"] }
serde_json = "=1.0.154"
reqwest = { version = "0.12", default-features = false, features = ["blocking", "rustls-tls"] }
