[package]
name = "toyos_reactor"
version = "0.1.0"
edition = "2021"
publish = false

[dependencies]
toyos = "=0.29.0"
toyos-abi = "=0.26.0"
