[package]
name = "crustyring"
version = "0.1.0"
edition = "2021"
publish = false

[dependencies]
sha2 = "0.10"
tokio = { version = "1", features = ["macros", "rt-multi-thread", "sync", "time"] }
tokio-stream = "0.1"
tonic = "0.9"
prost = "0.11"
log = "0.4"
env_logger = "0.10"
rand = "0.8"
