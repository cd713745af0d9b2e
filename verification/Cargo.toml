[package]
name = "confirmation_watcher"
version = "0.1.0"
edition = "2021"
publish = false

[dependencies]
tokio = { version = "1", features = ["macros", "rt", "time", "sync"] }
futures = "0.3"
