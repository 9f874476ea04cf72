[package]
name = "listup_precedent"
version = "0.1.0"
edition = "2021"
publish = false

[dependencies]
anyhow = "*"
clap = { version = "*", features = ["derive"] }
japanese_law_xml_schema = "*"
regex = "*"
reqwest = { version = "*", default-features = false, features = ["rustls-tls"] }
scraper = "*"
serde = { version = "*", features = ["derive"] }
serde_json = "*"
tokio = { version = "*", features = ["macros", "rt-multi-thread", "fs", "io-util", "time"] }
tokio-stream = "*"
tracing = "*"
url = "*"
