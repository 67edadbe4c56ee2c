[package]
name = "crab_examples"
version = "0.1.0"
edition = "2021"
publish = false

[dependencies]
anyhow = "=1.0.104"
hf-hub = "=0.4.3"
llama-crab = { version = "=0.1.6", features = ["hf-hub", "mtmd"] }
reqwest = { version = "=0.12.28", features = ["blocking"] }
serde = { version = "=1.0.229", features = ["derive"] }
serde_json = "=1.0.154"
tracing-subscriber = "=0.3.23"
