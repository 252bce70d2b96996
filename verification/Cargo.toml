[package]
name = "wiki_json_loader"
version = "0.1.0"
edition = "2021"
publish = false

[dependencies]
serde_json = "1"
serde = { version = "1", features = ["derive"] }
serde_yaml = "0.9"
reqwest = { version = "0.12", features = ["json"] }
tokio = { version = "1", features = ["rt", "rt-multi-thread"] }
elasticsearch = "8.19.0-alpha.1"
url = "2"
clap = "4"
glob = "0.3"
rayon = "1"
log = "0.4"
env_logger = "0.11"
