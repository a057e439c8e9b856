[package]
name = "krnl"
version = "0.1.0"
edition = "2021"
publish = false

[dependencies]
rspirv = "0.11"
flate2 = "1"
fxhash = "0.2"
dashmap = "5"
crossbeam-channel = "0.5"
parking_lot = "0.12"
anyhow = "1"
vulkano = "0.32"
ash = "0.37"
