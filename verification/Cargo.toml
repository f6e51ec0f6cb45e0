[package]
name = "paper_unfurl"
version = "0.1.0"
edition = "2021"
publish = false

[dependencies]
chrono = "0.4"
url = "2"
scraper = "*"
quick-xml = "*"
serde = { version = "1", features = ["derive"] }
serde_json = "1"
lazy_static = "1"
hyper = { version = "1", default-features = false }
reqwest = { version = "*", default-features = false, features = ["blocking", "json", "rustls-tls"] }
rocket = { version = "0.5", features = ["json"] }
