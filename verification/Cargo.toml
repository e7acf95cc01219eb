[package]
name = "adoc"
version = "0.1.0"
edition = "2021"
publish = false

[dependencies]
scraper = "*"
url = "*"
urlencoding = "*"
clap = { version = "*", features = ["derive"] }
tokio = { version = "*", features = ["rt-multi-thread", "macros", "sync", "time"] }
reqwest = { version = "*", default-features = false }
futures = "*"
serde = { version = "*", features = ["derive"] }
serde_json = "*"
anyhow = "*"
