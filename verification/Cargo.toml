[package]
name = "plugin_host"
version = "0.1.0"
edition = "2021"
publish = false

[dependencies]
fuzzy-matcher = "*"
pinyin = "*"
libloading = "*"
serde_json = "*"
tokio = { version = "*", features = ["rt-multi-thread", "macros"] }
