[package]
name = "groundhog"
version = "0.1.0"
edition = "2021"
publish = false

[dependencies]
async-trait = "=0.1.92"
directories = "=6.0.0"
env_logger = { version = "=0.11.11", default-features = false }
log = "=0.4.35"
mavio = { version = "=0.4.4", features = ["std", "tokio", "common"] }
nalgebra = "=0.34.2"
num_enum = "=0.7.6"
ron = "=0.12.3"
rust-ini = "=0.21.3"
serde = { version = "=1.0.229", features = ["derive"] }
serial2-tokio = "=0.1.26"
serialport = { version = "=4.10.1", default-features = false }
tokio = { version = "=1.54.1", features = ["rt-multi-thread", "net", "time", "sync", "io-util"] }
tokio-util = "=0.7.20"
