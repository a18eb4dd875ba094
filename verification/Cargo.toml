[package]
name = "hypersync"
version = "0.1.0"
edition = "2021"
publish = false

[dependencies]
hex = "=0.4.3"
hypercore-protocol = "=0.7.2"
hypercore = { version = "=0.16.0", features = ["shared-core"] }
hypercore_schema = "=0.2.0"
futures = "=0.3.34"
anyhow = "=1.0.104"
random-access-storage = "=5.0.0"
async-trait = "=0.1.92"
