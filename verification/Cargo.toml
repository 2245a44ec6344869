[package]
name = "rewind_core"
version = "0.1.0"
edition = "2021"
publish = false

[dependencies]
serde = { version = "1", features = ["derive"] }
serde_json = "1"
chrono = "0.4"
uuid = { version = "1", features = ["v4"] }
tokio = { version = "1", features = ["rt-multi-thread", "process", "io-util", "time", "sync"] }
dirs = "*"
walkdir = "2"
toml = "*"
