[package]
name = "auto_renewal"
version = "0.1.0"
edition = "2021"
publish = false

[dependencies]
anyhow = "=1.0.104"
bigdecimal = "=0.4.11"
bson = "=2.15.0"
chrono = "=0.4.45"
futures = "=0.3.34"
lazy_static = "=1.5.1"
mongodb = "=2.8.2"
serde = { version = "=1.0.229", features = ["derive"] }
starknet = "=0.6.0"
tokio = { version = "=1.54.1", features = ["macros", "rt-multi-thread"] }
toml = "=0.8.23"
url = "=2.5.8"
