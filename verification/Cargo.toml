[package]
name = "dictfeed"
version = "0.1.0"
edition = "2021"
publish = false

[dependencies]
csv = "*"
chrono = "*"
reqwest = { version = "*", default-features = false }
tokio = { version = "*", features = ["macros", "rt-multi-thread", "sync"] }
