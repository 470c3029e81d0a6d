[package]
name = "backtest"
version = "0.1.0"
edition = "2021"
publish = false

[dependencies]
chrono = "0.4"
log = "0.4"
env_logger = "*"
futures = "0.3"
reqwest = { version = "*", default-features = false }
tempfile = "*"
tokio = { version = "1", features = ["macros", "rt-multi-thread"] }
yata = "*"
zip = "*"
