[package]
name = "bandcamp_dl"
version = "0.1.0"
edition = "2021"
publish = false

[dependencies]
atomic-write-file = "*"
clap = { version = "4", default-features = false, features = ["derive", "error-context", "help", "std", "usage"] }
futures-util = "0.3"
indicatif = { version = "*", default-features = false }
log = "0.4"
mailparse = "*"
percent-encoding = "2"
reqwest = { version = "0.12", default-features = false, features = ["cookies", "gzip", "json", "rustls-tls", "stream"] }
reqwest_cookie_store = "0.8"
sanitize-filename = "*"
scraper = { version = "*", default-features = false }
serde = { version = "1", features = ["derive"] }
serde_json = "1"
time = "0.3"
tokio = { version = "1", features = ["fs", "macros", "rt-multi-thread", "sync"] }
