[package]
name = "chat_relay"
version = "0.1.0"
edition = "2021"
publish = false

[dependencies]
futures = "=0.3.34"
log = "=0.4.34"
pretty_env_logger = "=0.5.0"
tokio = { version = "=1.53.2", features = ["full"] }
tokio-stream = "=0.1.19"
warp = { version = "=0.4.3", features = ["server", "websocket"] }
