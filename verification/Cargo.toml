[package]
name = "hyperdrive-short"
version = "0.1.0"
edition = "2021"
publish = false

[dependencies]
ethers = { version = "=2.0.14", default-features = false }
fixedpointmath = { version = "=0.18.1", default-features = false }
wasm-bindgen = "0.2"
