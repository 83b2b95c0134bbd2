[package]
name = "udp_log"
version = "0.1.0"
edition = "2021"
publish = false

[dev-dependencies]
bincode = "1.3"
