[package]
name = "wikisearch"
version = "0.1.0"
edition = "2021"
publish = false

[dependencies]
serde_json = "=1.0.151"
clap = "=4.6.7"
colored = "=3.1.1"
colored_json = "=5.0.0"
reqwest = { version = "=0.13.5", default-features = false, features = ["blocking", "query"] }
