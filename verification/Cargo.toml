[package]
name = "llm_translator"
version = "0.1.0"
edition = "2021"
publish = false

[dependencies]
chrono = "*"
dirs = "*"
fastrand = "*"
reqwest = { version = "*", default-features = false, features = ["json"] }
serde = { version = "*", features = ["derive"] }
serde_json = "*"
tokio = { version = "*", features = ["rt", "rt-multi-thread", "sync", "time", "macros"] }
tokio-util = "*"
toml = "*"
uuid = { version = "*", features = ["v4"] }
