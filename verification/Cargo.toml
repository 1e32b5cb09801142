[package]
name = "goodreads_search"
version = "0.1.0"
edition = "2021"
publish = false

[dependencies]
log = "*"
reqwest = "*"
scraper = "*"
tokio = { version = "*", features = ["rt", "macros"] }

[dev-dependencies]
regex = "*"
