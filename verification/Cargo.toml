[package]
name = "cands_cyphal"
version = "0.1.0"
edition = "2021"
publish = false

[dependencies]
cands_interface = { version = "=0.1.20", features = ["raspberrypi"] }
cands_transport = "=0.1.1"
cands_presentation = "=0.1.6"
async-io = "=2.6.0"
futures-lite = "=2.6.1"
