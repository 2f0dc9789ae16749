[package]
name = "cratesio_bot"
version = "0.1.0"
edition = "2021"
publish = false

[dependencies]
url = "=2.5.8"
percent-encoding = "=1.0.1"
serde = { version = "=1.0.229", features = ["derive"] }
serde_json = "=1.0.151"
reqwest = { version = "=0.12.28", default-features = false, features = ["blocking", "json"] }
telegram_types = "=0.7.0"

[dev-dependencies]
htmlescape = "=0.3.1"
itertools = "=0.15.0"
