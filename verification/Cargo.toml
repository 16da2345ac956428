[package]
name = "binance_macd"
version = "0.1.0"
edition = "2021"
publish = false

[dependencies]
hmac = "=0.11.0"
sha2 = "=0.9.9"
config = "=0.11.0"
serde = { version = "=1.0.229", features = ["derive"] }
serde_json = "=1.0.154"
reqwest = "=0.11.27"
tokio-tungstenite = "=0.15.0"
futures = "=0.3.34"
actix = "=0.13.5"
actix-rt = "=2.15.0"
actix-broker = "=0.4.4"
ta = "=0.5.0"
log = "=0.4.35"
env_logger = "=0.9.3"
dotenv = "=0.15.0"

[dev-dependencies]
hex = "=0.4.3"
