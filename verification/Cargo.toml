[package]
name = "ai"
version = "0.1.0"
edition = "2021"
publish = false

[dependencies]
anyhow = "=1.0.104"
aws-config = "*"
aws-sdk-bedrockruntime = "*"
candle-core = "=0.11.0"
candle-nn = "=0.11.0"
candle-transformers = "=0.11.0"
clap = { version = "=4.6.7", features = ["derive"] }
clap-verbosity-flag = "=3.0.4"
config = { version = "=0.15.27", default-features = false, features = ["toml"] }
dirs = "=7.0.0"
indicatif = "=0.18.6"
rand = "=0.9.5"
serde = { version = "=1.0.229", features = ["derive"] }
serde_json = "=1.0.151"
tokenizers = "=0.23.2"
tokio = { version = "=1.53.2", features = ["rt", "rt-multi-thread"] }
tracing = "=0.1.44"
tracing-log = "=0.2.0"
tracing-subscriber = "=0.3.23"
