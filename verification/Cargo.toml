[package]
name = "sip"
version = "0.1.0"
edition = "2021"
publish = false

[dependencies]
anyhow = "1.0.104"
clap = { version = "4.6.7", features = ["derive"] }
log = "0.4.34"
log4rs = "1.4.0"
time = "0.3.55"
