[package]
name = "execution_engine"
version = "0.1.0"
edition = "2021"
publish = false

[dependencies]
tokio = { version = "1", features = ["sync", "macros", "rt-multi-thread", "time", "fs"] }
eval = "0.4"
uuid = { version = "1", features = ["v4"] }
serde = { version = "1", features = ["derive"] }
serde_json = "1"
futures = "0.3"
nats = "*"
tokio-nats = "*"
thiserror = "1"
async-trait = "0.1"
rand = "0.8"
