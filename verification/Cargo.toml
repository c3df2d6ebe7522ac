[package]
name = "cryo_freeze"
version = "0.1.0"
edition = "2021"
publish = false

[dependencies]
async-trait = "*"
ethers-core = "*"
polars = { version = "*", default-features = false }
