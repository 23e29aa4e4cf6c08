[package]
name = "dns_loadgen"
version = "0.1.0"
edition = "2021"
publish = false

[dependencies]
addr = "0.15"
clap = { version = "4", features = ["derive"] }
dns-parser = "0.8"
rand = "0.8"
