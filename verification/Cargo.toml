[package]
name = "ireina"
version = "0.1.0"
edition = "2021"
publish = false

[dependencies]
anyhow = "1"
async-trait = "0.1"
env_logger = "0.11"
futures = "0.3"
json-structural-diff = "=0.2.0"
log = "0.4"
pretty-duration = "=0.1.1"
reqwest = { version = "0.12", features = ["json"] }
rust_decimal = "=1.43.0"
serde = { version = "1", features = ["derive"] }
serde_json = "=1.0.154"
takecell = "=0.1.1"
teloxide = { version = "0.17", features = ["macros"] }
tokio = { version = "1", features = ["macros", "rt-multi-thread", "sync", "time"] }
yahoo_finance_api = "*"
