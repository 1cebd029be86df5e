[package]
name = "weave"
version = "0.1.0"
edition = "2021"
publish = false

[dependencies]
uuid = { version = "=1.27.0", features = ["v4"] }
chrono = "=0.4.45"
serde = { version = "=1.0.229", features = ["derive"] }
serde_json = "=1.0.151"
tokio = { version = "=1.53.2", features = ["net", "io-util", "io-std", "rt", "rt-multi-thread", "sync", "macros", "time", "fs"] }
dirs = "=7.0.0"
