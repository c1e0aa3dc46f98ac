[package]
name = "krust"
version = "0.1.0"
edition = "2021"
publish = false

[dependencies]
nalgebra = { version = "0.30", features = ["serde-serialize"] }
ncollide3d = "0.33"
rand = "0.8"
serde_json = "1"
wasm-bindgen = "0.2"

[dev-dependencies]
approx = "0.5"
