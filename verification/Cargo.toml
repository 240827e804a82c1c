[package]
name = "ils-core"
version = "0.1.0"
edition = "2021"
publish = false

[dependencies]
rayon = "1"
napi = "2"
napi-derive = "2"
