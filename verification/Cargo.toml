[package]
name = "awstail"
version = "0.1.0"
edition = "2021"
publish = false

[dependencies]
anyhow = "1"
chrono = "0.4"
console = "*"
ctrlc = "3"
env_logger = "*"
gumdrop = "*"
humantime = "2"
log = "0.4"
rusoto_core = "0.45"
rusoto_credential = "0.45"
rusoto_logs = "0.45"
tokio = { version = "0.2", features = ["macros", "rt-threaded", "time"] }
