[package]
name = "crawler"
version = "0.1.0"
edition = "2021"
publish = false

[dependencies]
url = "*"
scraper = "*"
encoding_rs = "*"
chardetng = "*"
rusqlite = { version = "*", features = ["bundled"] }
chrono = "*"
reqwest = { version = "*", default-features = false }
tokio = { version = "*", features = ["macros", "rt-multi-thread"] }
anyhow = "*"
serde = { version = "*", features = ["derive"] }
serde_json = "*"
regex = "*"
thiserror = "*"
