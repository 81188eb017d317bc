[package]
name = "dachterasse"
version = "0.1.0"
edition = "2021"
publish = false

[dependencies]
regex = "1"
scraper = "*"
serde = { version = "1", features = ["derive"] }
serde_json = "1"
reqwest = { version = "0.12", default-features = false, features = ["blocking", "rustls-tls"] }
async-std = "1"
async-trait = "0.1"
futures = "0.3"
sqlx = { version = "0.8", default-features = false, features = ["postgres", "runtime-tokio"] }
