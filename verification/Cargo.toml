[package]
name = "web_store"
version = "0.1.0"
edition = "2021"
publish = false

[dependencies]
anyhow = "1"
js-sys = "=0.3.69"
slab = "0.4"
tracing = "0.1"
wasm-bindgen = "=0.2.92"
