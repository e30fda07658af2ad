[package]
name = "papr"
version = "0.1.0"
edition = "2021"
publish = false

[dependencies]
ammonia = "4"
chrono = "0.4"
clap = { version = "4", features = ["derive", "env"] }
ego-tree = "*"
hex = "0.4"
log = "0.4"
opml = "1"
reqwest = { version = "0.12", default-features = false, features = ["json", "rustls-tls"] }
rusqlite = { version = "*", features = ["bundled"] }
scraper = "*"
serde = { version = "1", features = ["derive"] }
serde_json = "1"
sha2 = "0.10"
tokio = { version = "1", features = ["macros", "rt-multi-thread", "sync", "time"] }
url = "2"
