[package]
name = "dcutr"
version = "0.1.0"
edition = "2021"
publish = false

[dependencies]
either = "=1.19.0"
futures = "=0.3.34"
futures-timer = "=3.0.4"
libp2p-core = { version = "=0.31.1", default-features = false }
libp2p-swarm = "=0.33.0"
void = "=1.0.2"
