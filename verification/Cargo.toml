[package]
name = "orion"
version = "0.1.0"
edition = "2021"
publish = false

[dependencies]
serde_json = "*"
urlencoding = "*"
reqwest = { version = "*", default-features = false, features = ["blocking", "json"] }
oauth2 = { version = "*", default-features = false }
rusqlite = { version = "*", features = ["bundled"] }
toml = "*"
serde = { version = "*", features = ["derive"] }
clap = { version = "*", features = ["derive"] }
log = "*"
simple_logger = "*"
rss = "*"
scraper = "*"
regex = "*"
