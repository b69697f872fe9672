[package]
name = "skroutz_deals"
version = "0.1.0"
edition = "2021"
publish = false

[dependencies]
scraper = "*"
rand = "0.8"
reqwest = { version = "0.12", default-features = false }
tokio = { version = "1", features = ["macros", "rt-multi-thread"] }
clap = { version = "4", features = ["derive"] }
tabled = "*"
