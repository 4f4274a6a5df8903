[package]
name = "podcast_downloader"
version = "0.1.0"
edition = "2021"
publish = false

[dependencies]
sha2 = "0.10"
sanitize-filename = "0.5"
url = "2"
feed-rs = "2"
chrono = "0.4"
serde = { version = "1", features = ["derive"] }
toml = "0.8"
tokio = { version = "1", features = ["rt-multi-thread", "macros", "fs", "process", "sync", "io-util", "time"] }
reqwest = { version = "0.12", default-features = false, features = ["rustls-tls", "json", "stream"] }
sqlx = { version = "0.8", default-features = false, features = ["runtime-tokio", "sqlite"] }
futures = "0.3"
log = "0.4"
simplelog = "0.12"
uuid = { version = "1", features = ["v4"] }
crossterm = "0.28"
ratatui = "0.29"
thiserror = "2"
