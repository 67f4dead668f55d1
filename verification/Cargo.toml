[package]
name = "rapidsnark"
version = "0.1.0"
edition = "2021"
publish = false

[dependencies]
anyhow = "1"
num-bigint = "0.4"
num-traits = "0.2"
