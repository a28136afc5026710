[package]
name = "chain_mock"
version = "0.1.0"
edition = "2021"
publish = false

[dependencies]
num-bigint = "0.4"
hex = "0.4"
pathdiff = "0.2"
