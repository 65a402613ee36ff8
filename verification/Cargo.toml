[package]
name = "jam_services"
version = "0.1.0"
edition = "2021"
publish = false

[dependencies]
polkavm-derive = "0.37.0"
