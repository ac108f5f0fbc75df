[package]
name = "katana"
version = "0.1.0"
edition = "2021"
publish = false

[dependencies]
regex = "1"
markup5ever_rcdom = "*"
wasm-bindgen = "0.2"
