[package]
name = "chart_pipeline"
version = "0.1.0"
edition = "2021"
publish = false

[dependencies]
anyhow = "1"
async-std = { version = "1", features = ["attributes"] }
async-trait = "0.1"
chrono = { version = "0.4", features = ["serde"] }
csv-async = "1"
dotenv = "0.15"
envconfig = "0.10"
futures = "0.3"
indexmap = { version = "1", features = ["serde"] }
regex = "1"
serde = { version = "1", features = ["derive"] }
serde_json = "1"
surf = { version = "2", default-features = false, features = ["h1-client-rustls", "encoding"] }
tide = "0.16"
toml = "0.5"
url = "2"
