[package]
name = "examscrape"
version = "0.1.0"
edition = "2021"
publish = false

[dependencies]
scraper = "*"
url = "*"
csv = "*"
anyhow = "*"
reqwest = { version = "*", default-features = false, features = ["blocking"] }
