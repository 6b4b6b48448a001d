[package]
name = "ai_engine"
version = "0.1.0"
edition = "2021"
publish = false

[dependencies]
anyhow = "*"
candle-core = "0.3"
candle-transformers = "0.3"
crossterm = "*"
ctrlc = "*"
half = "=2.4.1"
hf-hub = "0.3"
regex = "*"
serde = { version = "*", features = ["derive"] }
serde_json = "*"
tokenizers = { version = "0.15", default-features = false, features = ["onig", "esaxx_fast"] }
tokio = { version = "*", features = ["macros", "rt-multi-thread", "process", "io-util", "sync"] }
whoami = "*"
