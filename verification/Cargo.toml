[package]
name = "sandy_engine"
version = "0.6.3"
edition = "2021"
publish = false

[dependencies]
chess = "3.2.0"
anyhow = "1"
lockfree = "0.5.1"
log = "0.4"
rayon = "1"
vampirc-uci = "0.11"
