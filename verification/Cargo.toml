[package]
name = "whisper_stream"
version = "0.1.0"
edition = "2021"
publish = false

[dependencies]
anyhow = "1"
byteorder = "1.5"
candle-core = "0.9"
candle-nn = "0.9"
candle-transformers = "0.9"
flate2 = "1"
hf-hub = { version = "0.4", default-features = false, features = ["ureq", "rustls-tls"] }
rand = "0.9"
serde_json = "1"
tokenizers = { version = "0.21", default-features = false, features = ["onig"] }
