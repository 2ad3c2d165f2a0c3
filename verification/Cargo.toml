[package]
name = "memkv"
version = "0.1.0"
edition = "2021"
publish = false

[dependencies]
dashmap = "*"
tokio = { version = "1", features = ["rt-multi-thread", "net", "io-util", "macros", "sync"] }
