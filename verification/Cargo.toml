[package]
name = "flarestats"
version = "0.1.0"
edition = "2021"
publish = false

[dependencies]
chrono = "0.4"
serde_json = "1"
serde = { version = "1", features = ["derive"] }
tokio = { version = "1", features = ["rt-multi-thread", "time", "macros"] }
futures = "0.3"
reqwest = { version = "0.12", default-features = false }
