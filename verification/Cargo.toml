[package]
name = "forwarder"
version = "0.1.0"
edition = "2021"
publish = false

[dependencies]
anyhow = "1"
clap = { version = "4", features = ["derive"] }
etherparse = "0.13"
log = "0.4"
mio = { version = "0.8", features = ["os-poll", "net"] }
parking_lot = "0.12"
simple_logger = "4"
socket2 = { version = "0.5", features = ["all"] }
