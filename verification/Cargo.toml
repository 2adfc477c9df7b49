[package]
name = "chell"
version = "0.1.0"
edition = "2021"
publish = false

[dependencies]
serde = { version = "=1.0.229", features = ["derive"] }
serde_json = "=1.0.154"
serenity = "=0.11.7"
meilisearch-sdk = "=0.23.2"
stop-words = "=0.7.2"
tokio = { version = "=1.54.1", features = ["full"] }
rand = "=0.8.8"
log = "=0.4.35"
simplelog = "=0.12.2"
lazy_static = "=1.5.1"
async-recursion = "=1.2.0"
ratmom = "=0.1.0"
