[package]
name = "tierfetch"
version = "0.1.0"
edition = "2021"
publish = false

[dependencies]
regex = "=1.13.1"
scraper = "=0.27.0"
reqwest = { version = "=0.13.5", default-features = false, features = ["blocking"] }
headless_chrome = "=0.9.0"
