[package]
name = "ontime"
version = "0.1.0"
edition = "2021"
publish = false

[dependencies]
chrono = "0.4"
md5 = "0.7"
yaml-rust = "0.4"
clap = { version = "4", features = ["derive"] }
log = "0.4"
pretty_env_logger = "0.5"
