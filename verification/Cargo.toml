[package]
name = "checkpoint_harness"
version = "0.1.0"
edition = "2021"
publish = false

[dependencies]
anyhow = "1"
parking_lot = "0.12"
radixdb = "*"
rand = "0.8"
