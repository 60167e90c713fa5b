[package]
name = "ssrs"
version = "0.1.0"
edition = "2021"
publish = false

[dependencies]
anyhow = "1"
clap = { version = "4", features = ["derive"] }
serde = { version = "1", features = ["derive"] }
serde_json = "1"
reqwest = { version = "*", default-features = false, features = ["blocking", "json"] }
hf-hub = { version = "0.4", default-features = false, features = ["ureq"] }
symphonia = { version = "*", features = ["all"] }
candle-core = "*"
candle-nn = "*"
candle-transformers = "*"
tokenizers = { version = "*", default-features = false, features = ["onig"] }
