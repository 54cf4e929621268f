[package]
name = "atc_book"
version = "0.1.0"
edition = "2021"
publish = false

[dependencies]
chrono = "=0.4.45"
scraper = "=0.20.0"
dark-light = "=2.0.0"
regex = "=1.13.1"
serde = { version = "=1.0.229", features = ["derive"] }
serde_json = "=1.0.154"
reqwest = { version = "=0.12.28", default-features = false, features = ["blocking", "rustls-tls"] }
rusqlite = { version = "=0.32.1", features = ["bundled"] }
dirs = "=5.0.1"
base64 = "=0.22.1"
uuid = { version = "=1.29.0", features = ["v4"] }
image = { version = "=0.25.10", default-features = false, features = ["png"] }
pdfium-render = "=0.8.37"
pdfium-auto = "=0.3.1"
