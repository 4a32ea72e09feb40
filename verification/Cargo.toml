[package]
name = "drova"
version = "0.1.0"
edition = "2021"
publish = false

[dependencies]
async-trait = "=0.1.92"
glob-match = "=0.2.1"
indexmap = "=2.14.2"
markdown = "=1.0.0"
mime = "=0.3.17"
reqwest = "=0.12.28"
serde = { version = "=1.0.229", features = ["derive"] }
tokio-gemini = "=0.5.2"
url = "=2.5.8"
