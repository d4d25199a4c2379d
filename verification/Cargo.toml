[package]
name = "fast_render_core"
version = "0.1.0"
edition = "2021"
publish = false

[dependencies]
pulldown-cmark = "*"
wasm-bindgen = "*"
console_error_panic_hook = "*"
