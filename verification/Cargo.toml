[package]
name = "running_average"
version = "0.1.0"
edition = "2021"
publish = false

[dependencies]
async-std = { version = "1", features = ["attributes"] }
clap = "3"
env_logger = "0.10"
futures = "0.3"
futures-lite = "1"
rand = "0.8"
zenoh = "0.11"
