[package]
name = "mongobar"
version = "0.1.0"
edition = "2021"
publish = false

[dependencies]
anyhow = "=1.0.104"
bson = "=2.15.0"
chrono = "=0.4.45"
clap = { version = "=4.6.7", features = ["derive"] }
csv = "=1.4.0"
futures = "=0.3.34"
hashbrown = "=0.15.5"
mongodb = "=3.9.1"
num_cpus = "=1.17.0"
rand = "=0.8.8"
ratatui = "0.27"
serde = { version = "=1.0.229", features = ["derive"] }
serde_json = "=1.0.154"
sha3 = "=0.10.9"
tokio = { version = "=1.54.1", features = ["full"] }
tui-input = "0.9"
